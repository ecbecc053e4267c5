//! Inodes: the stable identity of a namespace object.

use vstd::prelude::*;

verus! {

/// Permanent identity of a namespace object.
pub type InodeId = u128;

/// Identity of one stored version of a directory, file or link record.
pub type DataId = u128;

/// A SHA-256 digest.
pub type Sha256Hash = [u8; 32];

/// The reserved identifier of the root directory's inode.
pub const ROOT_INODE: InodeId = 1;

/// What an inode currently points at.
#[derive(Debug, Clone, Copy, PartialEq, Eq, Structural)]
pub enum InodeKind {
    File,
    Directory,
    Symlink,
}

/// The indirection record: `id` never changes, `target` and `kind` are
/// replaced together whenever the object behind the inode is rewritten.
#[derive(Debug, Clone, Copy, PartialEq, Eq, Structural)]
pub struct Inode {
    pub id: InodeId,
    pub target: DataId,
    pub kind: InodeKind,
}

impl Inode {
    /// Repoints the inode at another record. The identifier stays.
    pub fn swap_target(&mut self, new_target: DataId, new_kind: InodeKind)
        ensures
            final(self).id == old(self).id,
            final(self).target == new_target,
            final(self).kind == new_kind,
    {
        self.target = new_target;
        self.kind = new_kind;
    }
}

} // verus!
