//! Files: content-addressed records of what a file holds. The bytes live in
//! chunks of a fixed size; the record lists them in order.

use vstd::array::spec_array_fill_for_copy_type;
use vstd::prelude::*;
use vstd::slice::slice_subrange;
use crate::attributes::{block_count, blocks_for, Attributes, BLOCK_SIZE, DEFAULT_OWNER};
use crate::buffer::append_range;
use crate::checksum::{calculate_checksum, sha256};
use crate::chunk::{chunk_of, copy_chunks, Chunk};
use crate::inode::{DataId, InodeId, InodeKind, Sha256Hash};

verus! {

/// Size in bytes of every chunk of a file but the last, which may be shorter.
pub const CHUNK_SIZE: u64 = 4096;

/// One stored version of a file.
#[derive(Debug, Clone, PartialEq, Eq)]
pub struct File {
    pub id: DataId,
    pub content_hash: Sha256Hash,
    pub size: u64,
    pub chunks: Vec<Chunk>,
}

/// Mathematical value of a [`File`].
pub struct FileModel {
    pub id: DataId,
    pub content_hash: Sha256Hash,
    pub size: u64,
    pub chunks: Seq<Chunk>,
}

impl View for File {
    type V = FileModel;

    open spec fn view(&self) -> FileModel {
        FileModel {
            id: self.id,
            content_hash: self.content_hash,
            size: self.size,
            chunks: self.chunks@,
        }
    }
}

/// Number of chunks of a file of `size` bytes.
pub open spec fn chunk_count(size: nat) -> nat {
    blocks_for(size, CHUNK_SIZE as nat)
}

/// Number of bytes in chunk `idx` of a file of `size` bytes.
pub open spec fn chunk_len(size: nat, idx: int) -> int {
    let start = idx * CHUNK_SIZE;
    if start + CHUNK_SIZE <= size {
        CHUNK_SIZE as int
    } else if start < size {
        size - start
    } else {
        0
    }
}

/// The bytes of chunk `idx` of the content `data`.
pub open spec fn chunk_bytes(data: Seq<u8>, idx: int) -> Seq<u8> {
    data.subrange(idx * CHUNK_SIZE, idx * CHUNK_SIZE + chunk_len(data.len(), idx))
}

/// First byte of the range `[offset, offset + length)` held to `size`.
pub open spec fn range_start(size: nat, offset: nat) -> nat {
    if offset <= size {
        offset
    } else {
        size
    }
}

/// End of the range `[offset, offset + length)` held to `size`.
pub open spec fn range_end(size: nat, offset: nat, length: nat) -> nat {
    if offset + length <= size {
        offset + length
    } else {
        size
    }
}

/// Index of the first chunk that holds a byte of `[start, end)`.
pub open spec fn first_chunk(start: nat) -> nat {
    start / (CHUNK_SIZE as nat)
}

/// One past the index of the last chunk that holds a byte of `[start, end)`.
pub open spec fn end_chunk(start: nat, end: nat) -> nat {
    if start < end {
        blocks_for(end, CHUNK_SIZE as nat)
    } else {
        first_chunk(start)
    }
}

/// The part of chunk `idx` that lies in the byte range `[start, end)` of the
/// file, where `payload` holds the chunk's bytes.
pub open spec fn piece_of(payload: Seq<u8>, idx: int, start: int, end: int) -> Seq<u8> {
    let base = idx * CHUNK_SIZE;
    let lo = if start <= base {
        0
    } else if start - base <= payload.len() {
        start - base
    } else {
        payload.len() as int
    };
    let hi = if end <= base {
        0
    } else if end - base <= payload.len() {
        end - base
    } else {
        payload.len() as int
    };
    if lo <= hi {
        payload.subrange(lo, hi)
    } else {
        Seq::empty()
    }
}

impl FileModel {
    /// The chunk list is laid out as a file of `size` bytes needs it: the
    /// right number of chunks, each at its position, with its length, for
    /// this file.
    pub open spec fn wf(self) -> bool {
        &&& self.chunks.len() == chunk_count(self.size as nat)
        &&& forall|i: int|
            0 <= i < self.chunks.len() ==> {
                &&& (#[trigger] self.chunks[i]).file_id == self.id
                &&& self.chunks[i].idx == i
                &&& self.chunks[i].size == chunk_len(self.size as nat, i)
            }
    }

    /// The record describes the content `data`: its size, its digest, and
    /// for each chunk the routing identity and the digest of the chunk's bytes.
    pub open spec fn holds(self, data: Seq<u8>) -> bool {
        &&& self.wf()
        &&& self.size == data.len()
        &&& self.content_hash == sha256(data)
        &&& forall|i: int|
            0 <= i < self.chunks.len() ==> (#[trigger] self.chunks[i]).describes(
                self.id,
                i as u64,
                chunk_bytes(data, i),
            )
    }

    /// Attributes reported for this file behind inode `ino`.
    pub open spec fn attributes(self, ino: InodeId) -> Attributes {
        Attributes {
            ino,
            size: self.size,
            blocks: blocks_for(self.size as nat, BLOCK_SIZE as nat) as u64,
            atime: 0,
            mtime: 0,
            ctime: 0,
            crtime: 0,
            kind: InodeKind::File,
            perm: 0o644,
            nlink: 1,
            uid: DEFAULT_OWNER,
            gid: DEFAULT_OWNER,
            rdev: 0,
            flags: 0,
        }
    }
}

/// The record of a file `id` that holds `data`: its size and digest, and one
/// chunk record per chunk of the content, in order.
pub open spec fn file_of(id: DataId, data: Seq<u8>) -> FileModel {
    FileModel {
        id,
        content_hash: sha256(data),
        size: data.len() as u64,
        chunks: Seq::new(
            chunk_count(data.len()),
            |i: int| chunk_of(id, i as u64, chunk_bytes(data, i)),
        ),
    }
}

/// The digest recorded for a file without content: thirty-two zero bytes.
pub open spec fn zero_hash() -> Sha256Hash {
    spec_array_fill_for_copy_type::<u8, 32>(0u8)
}

/// The empty file: no bytes, no chunks, a digest of zeros.
pub open spec fn empty_file(id: DataId) -> FileModel {
    FileModel { id, content_hash: zero_hash(), size: 0, chunks: Seq::empty() }
}

impl File {
    /// A new file without content.
    pub fn empty(id: DataId) -> (file: File)
        ensures
            file@ == empty_file(id),
            file@.wf(),
    {
        let file = File { id, content_hash: [0u8; 32], size: 0, chunks: Vec::new() };
        assert(file@.chunks =~= Seq::empty());
        file
    }

    /// A copy of the record.
    pub fn duplicate(&self) -> (copy: File)
        ensures
            copy@ == self@,
    {
        let chunks = copy_chunks(&self.chunks, 0, self.chunks.len());
        assert(chunks@ =~= self.chunks@);
        File { id: self.id, content_hash: self.content_hash, size: self.size, chunks }
    }

    /// Whether the chunk list fits the size of the file.
    pub fn is_well_formed(&self) -> (ok: bool)
        ensures
            ok == self@.wf(),
    {
        if self.chunks.len() as u64 != block_count(self.size, CHUNK_SIZE) {
            return false;
        }
        let mut i: usize = 0;
        while i < self.chunks.len()
            invariant
                i <= self.chunks.len(),
                self.chunks.len() == chunk_count(self.size as nat),
                forall|j: int|
                    0 <= j < i ==> {
                        &&& (#[trigger] self.chunks[j]).file_id == self.id
                        &&& self.chunks[j].idx == j
                        &&& self.chunks[j].size == chunk_len(self.size as nat, j)
                    },
            decreases self.chunks.len() - i,
        {
            let chunk = &self.chunks[i];
            let expected: u64 = chunk_length(self.size, i as u64);
            if chunk.file_id != self.id || chunk.idx != i as u64 || chunk.size != expected {
                return false;
            }
            i += 1;
        }
        true
    }

    /// The record of a file that holds `data`, split into chunks.
    pub fn new_from_data(id: DataId, data: &[u8]) -> (file: File)
        ensures
            file@ == file_of(id, data@),
            file@.holds(data@),
    {
        let size: u64 = data.len() as u64;
        let count: u64 = block_count(size, CHUNK_SIZE);
        let mut chunks: Vec<Chunk> = Vec::new();
        let mut i: u64 = 0;
        while i < count
            invariant
                i <= count,
                size == data@.len(),
                data@.len() <= usize::MAX,
                count == chunk_count(size as nat),
                chunks@.len() == i,
                forall|j: int|
                    0 <= j < i ==> {
                        &&& (#[trigger] chunks@[j]).describes(id, j as u64, chunk_bytes(data@, j))
                        &&& chunks@[j].size == chunk_len(size as nat, j)
                    },
            decreases count - i,
        {
            let len: u64 = chunk_length(size, i);
            assert(i * CHUNK_SIZE + len <= size);
            let start: usize = (i * CHUNK_SIZE) as usize;
            let end: usize = start + len as usize;
            let bytes = slice_subrange(data, start, end);
            assert(bytes@ == chunk_bytes(data@, i as int));
            let chunk = Chunk::new_from_data(id, i, bytes);
            chunks.push(chunk);
            assert(chunks@[i as int] == chunk);
            i += 1;
        }
        let file = File { id, content_hash: calculate_checksum(data), size, chunks };
        assert(file@.chunks =~= file_of(id, data@).chunks);
        file
    }
}

/// Number of bytes in chunk `idx` of a file of `size` bytes.
pub fn chunk_length(size: u64, idx: u64) -> (len: u64)
    ensures
        len == chunk_len(size as nat, idx as int),
        idx < chunk_count(size as nat) ==> idx * CHUNK_SIZE + len <= size && len > 0,
        len <= CHUNK_SIZE,
{
    if idx > size / CHUNK_SIZE {
        0
    } else {
        let start: u64 = idx * CHUNK_SIZE;
        let rest: u64 = size - start;
        if rest >= CHUNK_SIZE {
            CHUNK_SIZE
        } else {
            rest
        }
    }
}

/// The byte range `[offset, offset + length)` held to a file of `size` bytes.
pub fn clamp_range(size: u64, offset: u64, length: u64) -> (range: (u64, u64))
    ensures
        range.0 == range_start(size as nat, offset as nat),
        range.1 == range_end(size as nat, offset as nat, length as nat),
        range.0 <= range.1 <= size,
{
    if offset >= size {
        (size, size)
    } else if length >= size - offset {
        (offset, size)
    } else {
        (offset, offset + length)
    }
}

/// The chunks that hold a byte of `[start, end)`: the index of the first and
/// one past the index of the last.
pub fn covering_chunks(start: u64, end: u64) -> (chunks: (u64, u64))
    ensures
        chunks.0 == first_chunk(start as nat),
        chunks.1 == end_chunk(start as nat, end as nat),
        chunks.0 <= chunks.1,
{
    let first: u64 = start / CHUNK_SIZE;
    if start < end {
        (first, block_count(end, CHUNK_SIZE))
    } else {
        (first, first)
    }
}

/// Appends to `out` the part of chunk `idx` that lies in `[start, end)`.
pub fn append_piece(out: &mut Vec<u8>, payload: &[u8], idx: u64, start: u64, end: u64)
    requires
        idx * CHUNK_SIZE <= u64::MAX,
    ensures
        final(out)@ == old(out)@ + piece_of(payload@, idx as int, start as int, end as int),
{
    let base: u64 = idx * CHUNK_SIZE;
    let len: usize = payload.len();
    let lo: usize = if start <= base {
        0
    } else if start - base <= len as u64 {
        (start - base) as usize
    } else {
        len
    };
    let hi: usize = if end <= base {
        0
    } else if end - base <= len as u64 {
        (end - base) as usize
    } else {
        len
    };
    let ghost before = out@;
    if lo <= hi {
        append_range(out, payload, lo, hi);
    }
    assert(out@ =~= before + piece_of(payload@, idx as int, start as int, end as int));
}

} // verus!
