//! Symbolic links. The engine stores them and reports their attributes; it
//! does not follow them.

use vstd::prelude::*;
use crate::attributes::{Attributes, DEFAULT_OWNER};
use crate::inode::{DataId, InodeId, InodeKind};

verus! {

/// One stored version of a symbolic link: the inode it points at.
#[derive(Debug, Clone, Copy, PartialEq, Eq, Structural)]
pub struct Link {
    pub id: DataId,
    pub target_inode: InodeId,
}

impl Link {
    /// Attributes reported for a link behind inode `ino`.
    pub open spec fn attributes(ino: InodeId) -> Attributes {
        Attributes {
            ino,
            size: 0,
            blocks: 0,
            atime: 0,
            mtime: 0,
            ctime: 0,
            crtime: 0,
            kind: InodeKind::Symlink,
            perm: 0o644,
            nlink: 1,
            uid: DEFAULT_OWNER,
            gid: DEFAULT_OWNER,
            rdev: 0,
            flags: 0,
        }
    }
}

} // verus!
