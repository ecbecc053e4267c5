//! What the stored kinds of object have in common: each reports its
//! attributes, and a directory can be copied under a newly drawn identifier.

use vstd::prelude::*;
use crate::attributes::{block_count, Attributes, BLOCK_SIZE, DEFAULT_OWNER};
use crate::directory::Directory;
use crate::file::File;
use crate::inode::{InodeId, InodeKind};
use crate::link::Link;
use crate::utils::generate_unique_id;

verus! {

/// A record that stands behind an inode and reports attributes.
pub trait FsManagable {
    /// Attributes of the record as seen through inode `inode`.
    spec fn entry_attributes(&self, inode: InodeId) -> Attributes;

    /// Attributes of the record as seen through inode `inode`.
    fn get_entry_attributes(&self, inode: InodeId) -> (attr: Attributes)
        ensures
            attr == self.entry_attributes(inode),
    ;
}

/// A record of which a copy can be made under a newly drawn identifier.
pub trait CopyableFs: Sized {
    /// Whether `other` holds what this record holds, whatever its identifier.
    spec fn same_content(&self, other: &Self) -> bool;

    /// A copy of the record under an identifier drawn for it.
    fn copy_entry_with_new_id(&self) -> (copy: Self)
        ensures
            self.same_content(&copy),
    ;
}

impl FsManagable for Directory {
    open spec fn entry_attributes(&self, inode: InodeId) -> Attributes {
        self@.attributes(inode)
    }

    fn get_entry_attributes(&self, inode: InodeId) -> (attr: Attributes) {
        Attributes {
            ino: inode,
            size: 0,
            blocks: 0,
            atime: 0,
            mtime: 0,
            ctime: 0,
            crtime: 0,
            kind: InodeKind::Directory,
            perm: 0o755,
            nlink: self.get_nlinks(),
            uid: DEFAULT_OWNER,
            gid: DEFAULT_OWNER,
            rdev: 0,
            flags: 0,
        }
    }
}

impl FsManagable for File {
    open spec fn entry_attributes(&self, inode: InodeId) -> Attributes {
        self@.attributes(inode)
    }

    fn get_entry_attributes(&self, inode: InodeId) -> (attr: Attributes) {
        Attributes {
            ino: inode,
            size: self.size,
            blocks: block_count(self.size, BLOCK_SIZE),
            atime: 0,
            mtime: 0,
            ctime: 0,
            crtime: 0,
            kind: InodeKind::File,
            perm: 0o644,
            nlink: 1,
            uid: DEFAULT_OWNER,
            gid: DEFAULT_OWNER,
            rdev: 0,
            flags: 0,
        }
    }
}

impl FsManagable for Link {
    open spec fn entry_attributes(&self, inode: InodeId) -> Attributes {
        Link::attributes(inode)
    }

    fn get_entry_attributes(&self, inode: InodeId) -> (attr: Attributes) {
        Attributes {
            ino: inode,
            size: 0,
            blocks: 0,
            atime: 0,
            mtime: 0,
            ctime: 0,
            crtime: 0,
            kind: InodeKind::Symlink,
            perm: 0o644,
            nlink: 1,
            uid: DEFAULT_OWNER,
            gid: DEFAULT_OWNER,
            rdev: 0,
            flags: 0,
        }
    }
}

impl CopyableFs for Directory {
    open spec fn same_content(&self, other: &Directory) -> bool {
        other@.entries == self@.entries
    }

    fn copy_entry_with_new_id(&self) -> (copy: Directory) {
        self.with_id(generate_unique_id())
    }
}

} // verus!
