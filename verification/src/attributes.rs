//! The attribute record that the engine reports for a namespace object.

use vstd::prelude::*;
use crate::inode::{InodeId, InodeKind};

verus! {

/// Size in bytes of the blocks in which a file's footprint is counted.
pub const BLOCK_SIZE: u64 = 4096;

/// Owner reported for every stored object.
pub const DEFAULT_OWNER: u32 = 1000;

/// Standard attributes of one namespace object. Times are seconds since the
/// epoch.
#[derive(Debug, Clone, Copy, PartialEq, Eq, Structural)]
pub struct Attributes {
    pub ino: InodeId,
    pub size: u64,
    pub blocks: u64,
    pub atime: i64,
    pub mtime: i64,
    pub ctime: i64,
    pub crtime: i64,
    pub kind: InodeKind,
    pub perm: u16,
    pub nlink: u32,
    pub uid: u32,
    pub gid: u32,
    pub rdev: u32,
    pub flags: u32,
}

/// Number of `block_size`-byte blocks needed to hold `size` bytes.
pub open spec fn blocks_for(size: nat, block_size: nat) -> nat
    recommends
        block_size > 0,
{
    if size % block_size == 0 {
        size / block_size
    } else {
        size / block_size + 1
    }
}

/// Counts the blocks that `size` bytes occupy, rounding up.
pub fn block_count(size: u64, block_size: u64) -> (blocks: u64)
    requires
        block_size > 0,
    ensures
        blocks == blocks_for(size as nat, block_size as nat),
{
    let whole: u64 = size / block_size;
    let rest: u64 = size % block_size;
    assert(whole * block_size + rest == size) by (nonlinear_arith)
        requires
            whole == size / block_size,
            rest == size % block_size,
            block_size > 0,
    ;
    if rest == 0 {
        whole
    } else {
        assert(whole < u64::MAX) by (nonlinear_arith)
            requires
                whole * block_size + rest == size,
                rest > 0,
                block_size > 0,
                size <= u64::MAX,
        ;
        whole + 1
    }
}

} // verus!
