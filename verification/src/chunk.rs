//! Chunks: the fixed-size pieces in which file content is stored.

use vstd::bytes::{
    spec_u128_from_le_bytes, spec_u128_to_le_bytes, spec_u64_to_le_bytes, u128_from_le_bytes,
    u128_to_le_bytes, u64_to_le_bytes,
};
use vstd::prelude::*;
use vstd::slice::slice_subrange;
use crate::checksum::{calculate_checksum, sha256};
use crate::inode::{DataId, Sha256Hash};

verus! {

/// Metadata of one chunk of a file. `id` says where the chunk is stored and
/// depends on the file and the position only; `hash` verifies the bytes and
/// depends on the bytes only.
#[derive(Debug, Clone, Copy, PartialEq, Eq)]
pub struct Chunk {
    pub file_id: DataId,
    pub idx: u64,
    pub id: DataId,
    pub size: u64,
    pub hash: Sha256Hash,
}

/// The bytes that are hashed to place chunk `idx` of file `file_id`: both
/// numbers in little-endian order, the file first.
pub open spec fn chunk_id_preimage(file_id: DataId, idx: u64) -> Seq<u8> {
    spec_u128_to_le_bytes(file_id) + spec_u64_to_le_bytes(idx)
}

/// Routing identity of chunk `idx` of file `file_id`: the first sixteen bytes
/// of the digest of [`chunk_id_preimage`], read as a little-endian number.
pub open spec fn chunk_id(file_id: DataId, idx: u64) -> DataId {
    spec_u128_from_le_bytes(sha256(chunk_id_preimage(file_id, idx))@.subrange(0, 16))
}

/// The record of `data` stored as chunk `idx` of file `file_id`.
pub open spec fn chunk_of(file_id: DataId, idx: u64, data: Seq<u8>) -> Chunk {
    Chunk { file_id, idx, id: chunk_id(file_id, idx), size: data.len() as u64, hash: sha256(data) }
}

impl Chunk {
    /// Whether this is the record of `data` stored as chunk `idx` of file
    /// `file_id`.
    pub open spec fn describes(&self, file_id: DataId, idx: u64, data: Seq<u8>) -> bool {
        &&& self.file_id == file_id
        &&& self.idx == idx
        &&& self.id == chunk_id(file_id, idx)
        &&& self.size == data.len()
        &&& self.hash == sha256(data)
    }

    /// Describes `data` as chunk `idx` of file `file_id`.
    pub fn new_from_data(file_id: DataId, idx: u64, data: &[u8]) -> (chunk: Chunk)
        ensures
            chunk.describes(file_id, idx, data@),
            chunk == chunk_of(file_id, idx, data@),
    {
        let size: u64 = data.len() as u64;
        let hash = calculate_checksum(data);
        let id = Self::make_chunk_id(file_id, idx);
        Chunk { file_id, idx, id, size, hash }
    }

    /// Routing identity of chunk `idx` of file `file_id`.
    pub fn make_chunk_id(file_id: DataId, idx: u64) -> (id: DataId)
        ensures
            id == chunk_id(file_id, idx),
    {
        let mut preimage = u128_to_le_bytes(file_id);
        let mut tail = u64_to_le_bytes(idx);
        preimage.append(&mut tail);
        let out = calculate_checksum(preimage.as_slice());
        let head = slice_subrange(out.as_slice(), 0, 16);
        u128_from_le_bytes(head)
    }
}

/// The routing identity of a chunk depends on the file and the position
/// alone, never on the bytes.
pub proof fn chunk_id_ignores_content(
    file_id: DataId,
    idx: u64,
    data: Seq<u8>,
    other_data: Seq<u8>,
    chunk: Chunk,
    other: Chunk,
)
    requires
        chunk.describes(file_id, idx, data),
        other.describes(file_id, idx, other_data),
    ensures
        chunk.id == other.id,
{
}

/// The integrity hash of a chunk depends on its bytes alone, never on the
/// file or the position.
pub proof fn chunk_hash_ignores_place(
    file_id: DataId,
    idx: u64,
    other_file: DataId,
    other_idx: u64,
    data: Seq<u8>,
    chunk: Chunk,
    other: Chunk,
)
    requires
        chunk.describes(file_id, idx, data),
        other.describes(other_file, other_idx, data),
    ensures
        chunk.hash == other.hash,
{
}

/// A copy of `chunks[from..to]`.
pub fn copy_chunks(chunks: &Vec<Chunk>, from: usize, to: usize) -> (copy: Vec<Chunk>)
    requires
        from <= to <= chunks@.len(),
    ensures
        copy@ == chunks@.subrange(from as int, to as int),
{
    let mut copy: Vec<Chunk> = Vec::new();
    let mut i: usize = from;
    assert(copy@ =~= chunks@.subrange(from as int, i as int));
    while i < to
        invariant
            from <= i <= to <= chunks@.len(),
            copy@ == chunks@.subrange(from as int, i as int),
        decreases to - i,
    {
        copy.push(chunks[i]);
        assert(copy@ =~= chunks@.subrange(from as int, i + 1));
        i += 1;
    }
    copy
}

} // verus!
