//! The directory entry of a mounted tree: its children by inode number.

use std::collections::HashMap;
use vstd::prelude::*;
use vstd::std_specs::hash::{into_iter_values, spec_values_iter};
use vstd::std_specs::iter::IteratorSpec;
use crate::attributes::Attributes;
use crate::fs_entry::{entry_attributes, make_attributes, FSEntry, FSEntryBase, Metadata};
use crate::inode::InodeKind;

verus! {

/// A directory of the tree.
pub struct DirEntry {
    pub base: FSEntryBase,
    pub children: HashMap<u64, Box<dyn FSEntry>>,
}

impl FSEntry for DirEntry {
    open spec fn inode(&self) -> u64 {
        self.base.inode
    }

    open spec fn name(&self) -> Seq<char> {
        self.base.name@
    }

    open spec fn metadata(&self) -> Metadata {
        self.base.metadata
    }

    open spec fn attributes(&self) -> Attributes {
        entry_attributes(self.base.inode, self.base.metadata, InodeKind::Directory, 0, 0, 2)
    }

    fn get_name(&self) -> (name: &str) {
        self.base.name.as_str()
    }

    fn get_metadata(&self) -> (metadata: &Metadata) {
        &self.base.metadata
    }

    fn get_inode(&self) -> (inode: u64) {
        self.base.inode
    }

    fn make_file_attr(&self) -> (attr: Attributes) {
        make_attributes(self.base.inode, &self.base.metadata, InodeKind::Directory, 0, 0, 2)
    }
}

impl DirEntry {
    /// The children in the order in which the map walks them.
    pub open spec fn walk(&self) -> Seq<Box<dyn FSEntry>> {
        into_iter_values(spec_values_iter(&self.children))
    }

    /// A directory without children.
    pub fn new(base: FSEntryBase) -> (entry: DirEntry)
        ensures
            entry.base == base,
            entry.children@ == Map::<u64, Box<dyn FSEntry>>::empty(),
    {
        DirEntry { base, children: HashMap::new() }
    }

    /// Puts `entry` under `inode`, in place of what was there.
    pub fn add_child(&mut self, inode: u64, entry: Box<dyn FSEntry>)
        ensures
            final(self).base == old(self).base,
            final(self).children@ == old(self).children@.insert(inode, entry),
    {
        self.children.insert(inode, entry);
    }

    /// The child under `inode`.
    pub fn get_child(&self, inode: &u64) -> (child: Option<&Box<dyn FSEntry>>)
        ensures
            match child {
                Some(entry) => self.children@.contains_key(*inode) && *entry
                    == self.children@[*inode],
                None => !self.children@.contains_key(*inode),
            },
    {
        self.children.get(inode)
    }

    /// Takes the child under `inode` out.
    pub fn remove_child(&mut self, inode: &u64)
        ensures
            final(self).base == old(self).base,
            final(self).children@ == old(self).children@.remove(*inode),
    {
        self.children.remove(inode);
    }

    /// All children, each once, in the order of one walk of the map.
    pub fn list_children(&self) -> (children: Vec<&Box<dyn FSEntry>>)
        ensures
            children@.unref() == self.walk(),
            children@.len() == self.children@.dom().len(),
            children@.unref().to_set() == self.children@.values(),
    {
        let mut children: Vec<&Box<dyn FSEntry>> = Vec::new();
        for child in iter: self.children.values()
            invariant
                children@ == iter.seq().subrange(0, iter.index() as int),
                iter.seq() == spec_values_iter(&self.children).remaining(),
                iter.seq().unref() == self.walk(),
        {
            children.push(child);
            assert(children@ =~= iter.seq().subrange(0, iter.index() + 1));
        }
        assert(children@ =~= spec_values_iter(&self.children).remaining());
        children
    }

    /// Up to `length` children from position `offset` of one walk of the map.
    pub fn list_children_range(&self, offset: usize, length: usize) -> (children: Vec<
        &Box<dyn FSEntry>,
    >)
        ensures
            self.walk().len() == self.children@.dom().len(),
            offset >= self.walk().len() ==> children@.len() == 0,
            offset < self.walk().len() && offset + length >= self.walk().len()
                ==> children@.unref() == self.walk().subrange(
                offset as int,
                self.walk().len() as int,
            ),
            offset + length < self.walk().len() ==> children@.unref() == self.walk().subrange(
                offset as int,
                offset + length,
            ),
    {
        let mut children: Vec<&Box<dyn FSEntry>> = Vec::new();
        let total: usize = self.children.len();
        let mut seen: usize = 0;
        for child in iter: self.children.values()
            invariant
                iter.seq().unref() == self.walk(),
                seen == iter.index(),
                seen <= iter.seq().len(),
                iter.seq().len() == self.children@.dom().len(),
                self.children@.dom().len() == total,
                seen <= offset ==> children@.len() == 0,
                seen > offset && offset + length >= seen ==> children@ == iter.seq().subrange(
                    offset as int,
                    seen as int,
                ),
                offset + length < seen ==> children@ == iter.seq().subrange(
                    offset as int,
                    offset + length,
                ),
        {
            if seen >= offset && children.len() < length {
                children.push(child);
                assert(children@ =~= iter.seq().subrange(offset as int, seen + 1));
            }
            seen += 1;
        }
        proof {
            let walk = self.walk();
            if offset < walk.len() && offset + length >= walk.len() {
                assert(children@.unref() =~= walk.subrange(offset as int, walk.len() as int));
            }
            if offset + length < walk.len() {
                assert(children@.unref() =~= walk.subrange(offset as int, offset + length));
            }
        }
        children
    }
}

} // verus!
