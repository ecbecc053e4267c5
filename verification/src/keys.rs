//! The text of a key: the name of the record's table, a colon, and the
//! identifier in decimal.

use vstd::prelude::*;
use vstd::string::StringExecFns;
use crate::directory::Directory;
use crate::file::File;
use crate::inode::Inode;
use crate::link::Link;
use crate::record::{Key, Table};
use crate::text::{append_decimal, decimal, decimal_is_injective};

verus! {

/// The name of a table as it opens a key.
pub open spec fn table_prefix(table: Table) -> Seq<char> {
    match table {
        Table::Inode => "inode:"@,
        Table::Directory => "dir:"@,
        Table::File => "file:"@,
        Table::Link => "link:"@,
        Table::Chunk => "chunk:"@,
    }
}

/// The text of the key of record `id` in `table`.
pub open spec fn key_text(table: Table, id: u128) -> Seq<char> {
    table_prefix(table) + decimal(id as nat)
}

/// Two keys with one text are one key: no two records share a place in the
/// store.
pub proof fn key_text_is_injective(first: Key, second: Key)
    requires
        key_text(first.table, first.id) == key_text(second.table, second.id),
    ensures
        first == second,
{
    reveal_strlit("inode:");
    reveal_strlit("dir:");
    reveal_strlit("file:");
    reveal_strlit("link:");
    reveal_strlit("chunk:");
    let left = key_text(first.table, first.id);
    let right = key_text(second.table, second.id);
    assert(left[0] == table_prefix(first.table)[0]);
    assert(right[0] == table_prefix(second.table)[0]);
    assert(first.table == second.table);
    let prefix = table_prefix(first.table);
    assert(left.subrange(prefix.len() as int, left.len() as int) =~= decimal(first.id as nat));
    assert(right.subrange(prefix.len() as int, right.len() as int) =~= decimal(second.id as nat));
    decimal_is_injective(first.id as nat, second.id as nat);
}

impl Key {
    /// The text of the key.
    pub fn render(&self) -> (text: String)
        ensures
            text@ == key_text(self.table, self.id),
    {
        let prefix = match self.table {
            Table::Inode => "inode:",
            Table::Directory => "dir:",
            Table::File => "file:",
            Table::Link => "link:",
            Table::Chunk => "chunk:",
        };
        let mut text = String::from_str(prefix);
        append_decimal(&mut text, self.id);
        text
    }
}

/// A kind of record with a table of its own.
pub trait TableLookup {
    /// The table that holds the records of this kind.
    spec fn table() -> Table;

    /// The text of the key of record `id`.
    fn get_table_id_by_id(id: u128) -> (key: String)
        ensures
            key@ == key_text(Self::table(), id),
    ;
}

impl TableLookup for Inode {
    open spec fn table() -> Table {
        Table::Inode
    }

    fn get_table_id_by_id(id: u128) -> (key: String) {
        Key { table: Table::Inode, id }.render()
    }
}

impl TableLookup for Directory {
    open spec fn table() -> Table {
        Table::Directory
    }

    fn get_table_id_by_id(id: u128) -> (key: String) {
        Key { table: Table::Directory, id }.render()
    }
}

impl TableLookup for File {
    open spec fn table() -> Table {
        Table::File
    }

    fn get_table_id_by_id(id: u128) -> (key: String) {
        Key { table: Table::File, id }.render()
    }
}

impl TableLookup for Link {
    open spec fn table() -> Table {
        Table::Link
    }

    fn get_table_id_by_id(id: u128) -> (key: String) {
        Key { table: Table::Link, id }.render()
    }
}

} // verus!
