//! What the key-value store holds: records of five kinds, each under a key
//! made of its kind and its identifier.

use vstd::prelude::*;
use crate::directory::{Directory, DirectoryModel};
use crate::file::{File, FileModel};
use crate::inode::{DataId, Inode, InodeKind};
use crate::link::Link;

verus! {

/// The kinds of record, one namespace of keys each.
#[derive(Debug, Clone, Copy, PartialEq, Eq, Structural)]
pub enum Table {
    Inode,
    Directory,
    File,
    Link,
    Chunk,
}

/// Where a record is stored.
#[derive(Debug, Clone, Copy, PartialEq, Eq, Structural)]
pub struct Key {
    pub table: Table,
    pub id: u128,
}

/// The bytes of one chunk, stored under the chunk's routing identity.
#[derive(Debug, Clone, PartialEq, Eq)]
pub struct ChunkData {
    pub id: DataId,
    pub bytes: Vec<u8>,
}

/// One stored value.
#[derive(Debug, Clone, PartialEq, Eq)]
pub enum Record {
    Inode(Inode),
    Directory(Directory),
    File(File),
    Link(Link),
    Chunk(ChunkData),
}

/// Mathematical value of a [`Record`].
pub enum RecordModel {
    Inode(Inode),
    Directory(DirectoryModel),
    File(FileModel),
    Link(Link),
    Chunk { id: DataId, bytes: Seq<u8> },
}

impl View for Record {
    type V = RecordModel;

    open spec fn view(&self) -> RecordModel {
        match *self {
            Record::Inode(inode) => RecordModel::Inode(inode),
            Record::Directory(dir) => RecordModel::Directory(dir@),
            Record::File(file) => RecordModel::File(file@),
            Record::Link(link) => RecordModel::Link(link),
            Record::Chunk(chunk) => RecordModel::Chunk { id: chunk.id, bytes: chunk.bytes@ },
        }
    }
}

impl Key {
    /// Key of the inode `id`.
    pub open spec fn inode(id: u128) -> Key {
        Key { table: Table::Inode, id }
    }

    /// Key of the directory record `id`.
    pub open spec fn directory(id: u128) -> Key {
        Key { table: Table::Directory, id }
    }

    /// Key of the file record `id`.
    pub open spec fn file(id: u128) -> Key {
        Key { table: Table::File, id }
    }

    /// Key of the chunk with routing identity `id`.
    pub open spec fn chunk(id: u128) -> Key {
        Key { table: Table::Chunk, id }
    }

    /// Key of the record that `inode` points at.
    pub open spec fn target(inode: Inode) -> Key {
        Key {
            table: match inode.kind {
                InodeKind::File => Table::File,
                InodeKind::Directory => Table::Directory,
                InodeKind::Symlink => Table::Link,
            },
            id: inode.target,
        }
    }

    /// Key of the inode `id`.
    pub fn of_inode(id: u128) -> (key: Key)
        ensures
            key == Key::inode(id),
    {
        Key { table: Table::Inode, id }
    }

    /// Key of the chunk with routing identity `id`.
    pub fn of_chunk(id: u128) -> (key: Key)
        ensures
            key == Key::chunk(id),
    {
        Key { table: Table::Chunk, id }
    }

    /// Key of the record that `inode` points at.
    pub fn of_target(inode: &Inode) -> (key: Key)
        ensures
            key == Key::target(*inode),
    {
        let table = match inode.kind {
            InodeKind::File => Table::File,
            InodeKind::Directory => Table::Directory,
            InodeKind::Symlink => Table::Link,
        };
        Key { table, id: inode.target }
    }
}

impl RecordModel {
    /// The key under which the record is stored.
    pub open spec fn key(self) -> Key {
        match self {
            RecordModel::Inode(inode) => Key { table: Table::Inode, id: inode.id },
            RecordModel::Directory(dir) => Key { table: Table::Directory, id: dir.id },
            RecordModel::File(file) => Key { table: Table::File, id: file.id },
            RecordModel::Link(link) => Key { table: Table::Link, id: link.id },
            RecordModel::Chunk { id, bytes } => Key { table: Table::Chunk, id },
        }
    }
}

impl Record {
    /// The key under which the record is stored.
    pub fn key(&self) -> (key: Key)
        ensures
            key == self@.key(),
    {
        match self {
            Record::Inode(inode) => Key { table: Table::Inode, id: inode.id },
            Record::Directory(dir) => Key { table: Table::Directory, id: dir.id },
            Record::File(file) => Key { table: Table::File, id: file.id },
            Record::Link(link) => Key { table: Table::Link, id: link.id },
            Record::Chunk(chunk) => Key { table: Table::Chunk, id: chunk.id },
        }
    }
}

} // verus!
