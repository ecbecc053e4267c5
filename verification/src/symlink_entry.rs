//! The symbolic link of a mounted tree: an entry that stands for another.

use vstd::prelude::*;
use vstd::utf8::encode_utf8;
use crate::attributes::{block_count, blocks_for, Attributes, BLOCK_SIZE};
use crate::fs_entry::{entry_attributes, make_attributes, FSEntry, FSEntryBase, Metadata};
use crate::inode::InodeKind;

verus! {

/// A symbolic link of the tree.
pub struct SymlinkEntry {
    pub base: FSEntryBase,
    pub target: Box<dyn FSEntry>,
}

/// Length in bytes of `name` as text.
pub open spec fn name_length(name: Seq<char>) -> nat {
    encode_utf8(name).len()
}

/// Size reported for a link to an entry called `name`.
pub open spec fn link_size(name: Seq<char>) -> u64 {
    (name_length(name) as usize) as u64
}

impl FSEntry for SymlinkEntry {
    open spec fn inode(&self) -> u64 {
        self.base.inode
    }

    open spec fn name(&self) -> Seq<char> {
        self.base.name@
    }

    open spec fn metadata(&self) -> Metadata {
        self.base.metadata
    }

    /// The size of a link is the length of its target's name.
    open spec fn attributes(&self) -> Attributes {
        entry_attributes(
            self.base.inode,
            self.base.metadata,
            InodeKind::Symlink,
            link_size(self.target.name()),
            blocks_for(link_size(self.target.name()) as nat, BLOCK_SIZE as nat) as u64,
            1,
        )
    }

    fn get_name(&self) -> (name: &str) {
        self.base.name.as_str()
    }

    fn get_metadata(&self) -> (metadata: &Metadata) {
        &self.base.metadata
    }

    fn get_inode(&self) -> (inode: u64) {
        self.base.inode
    }

    fn make_file_attr(&self) -> (attr: Attributes) {
        let target_len: u64 = self.target.get_name().len() as u64;
        make_attributes(
            self.base.inode,
            &self.base.metadata,
            InodeKind::Symlink,
            target_len,
            block_count(target_len, BLOCK_SIZE),
            1,
        )
    }
}

/// What a link holds for the moment in which it is built, before its target
/// is put in.
struct Unset {
    metadata: Metadata,
}

/// Metadata without times, owner or mode.
spec fn blank_metadata() -> Metadata {
    Metadata {
        created_at: 0,
        modified_at: 0,
        accessed_at: 0,
        changed_at: 0,
        permissions: 0,
        uid: 0,
        gid: 0,
        rdev: 0,
        flags: 0,
    }
}

impl Unset {
    fn new() -> (unset: Unset)
        ensures
            unset.metadata == blank_metadata(),
    {
        Unset {
            metadata: Metadata {
                created_at: 0,
                modified_at: 0,
                accessed_at: 0,
                changed_at: 0,
                permissions: 0,
                uid: 0,
                gid: 0,
                rdev: 0,
                flags: 0,
            },
        }
    }
}

impl FSEntry for Unset {
    closed spec fn inode(&self) -> u64 {
        0
    }

    closed spec fn name(&self) -> Seq<char> {
        ""@
    }

    closed spec fn metadata(&self) -> Metadata {
        self.metadata
    }

    closed spec fn attributes(&self) -> Attributes {
        entry_attributes(0, self.metadata, InodeKind::Symlink, 0, 0, 0)
    }

    fn get_name(&self) -> (name: &str) {
        ""
    }

    fn get_metadata(&self) -> (metadata: &Metadata) {
        &self.metadata
    }

    fn get_inode(&self) -> (inode: u64) {
        0
    }

    fn make_file_attr(&self) -> (attr: Attributes) {
        make_attributes(0, &self.metadata, InodeKind::Symlink, 0, 0, 0)
    }
}

impl SymlinkEntry {
    /// A link to `target`. The link is built around a stand-in and the target
    /// is then put in its place.
    pub fn new(base: FSEntryBase, target: Box<dyn FSEntry>) -> (entry: SymlinkEntry)
        ensures
            entry.base == base,
            entry.target == target,
    {
        let mut entry = SymlinkEntry { base, target: Box::new(Unset::new()) };
        let mut held = target;
        std::mem::swap(&mut entry.target, &mut held);
        entry
    }

    /// What the link stands for.
    pub fn get_target(&self) -> (target: &Box<dyn FSEntry>)
        ensures
            *target == self.target,
    {
        &self.target
    }

    /// Points the link at `target`. What the link stood for before is
    /// dropped.
    pub fn set_target(&mut self, target: Box<dyn FSEntry>)
        ensures
            final(self).base == old(self).base,
            final(self).target == target,
    {
        let mut replaced = target;
        std::mem::swap(&mut self.target, &mut replaced);
    }
}

} // verus!
