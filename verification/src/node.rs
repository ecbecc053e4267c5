//! A node of the cluster: it holds the root of its tree.

use vstd::prelude::*;
use vstd::string::StringExecFns;
use crate::dir_entry::DirEntry;
use crate::fs_entry::{FSEntry, FSEntryBase, Metadata};

verus! {

/// One node and the root directory of its tree.
pub struct Node {
    pub node_id: u64,
    pub root_dir: Box<DirEntry>,
}

/// The metadata of a new root: no times, owner 1000, mode `rwxr-xr-x`.
pub open spec fn root_metadata() -> Metadata {
    Metadata {
        created_at: 0,
        modified_at: 0,
        accessed_at: 0,
        changed_at: 0,
        permissions: 0o755,
        uid: 1000,
        gid: 1000,
        rdev: 0,
        flags: 0,
    }
}

impl Node {
    /// A node with an empty root directory `/` of inode 0.
    pub fn init(node_id: u64) -> (node: Node)
        ensures
            node.node_id == node_id,
            node.root_dir.base.inode == 0,
            node.root_dir.base.name@ == "/"@,
            node.root_dir.base.metadata == root_metadata(),
            node.root_dir.children@ == Map::<u64, Box<dyn FSEntry>>::empty(),
    {
        Node {
            node_id,
            root_dir: Box::new(
                DirEntry::new(
                    FSEntryBase {
                        inode: 0,
                        name: String::from_str("/"),
                        metadata: Metadata {
                            created_at: 0,
                            modified_at: 0,
                            accessed_at: 0,
                            changed_at: 0,
                            permissions: 0o755,
                            uid: 1000,
                            gid: 1000,
                            rdev: 0,
                            flags: 0,
                        },
                    },
                ),
            ),
        }
    }

    /// The node as bytes. A node has no stored form yet: there are none.
    pub fn serialize(&self) -> (bytes: Vec<u8>)
        ensures
            bytes@ == Seq::<u8>::empty(),
    {
        Vec::new()
    }
}

} // verus!
