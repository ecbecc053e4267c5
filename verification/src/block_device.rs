//! A block device: a logical range of bytes served in blocks of a fixed
//! size. Blocks are created when first written; a block that was never
//! written reads as zeros.

use std::collections::BTreeMap;
use vstd::prelude::*;
use vstd::slice::slice_subrange;
use vstd::string::StringExecFns;
use crate::buffer::append_range;
use crate::text::{append_decimal, append_hex_list, decimal, hex_list};

verus! {

/// Size in bytes of the blocks of a new device, and of a new block's data.
pub const DEFAULT_BLOCK_SIZE: usize = 4096;

/// Why a block operation was refused.
#[derive(Debug, Clone, Copy, PartialEq, Eq, Structural)]
pub enum BlockError {
    /// The byte range reaches a block that starts at or after the end of the
    /// device.
    OutOfBounds,
    /// The length given is not the length of the block's data.
    SizeMismatch,
}

/// One block of a device.
#[derive(Debug, Clone, PartialEq, Eq)]
pub struct Block {
    pub index: u64,
    pub hash: [u8; 32],
    data: Vec<u8>,
}

/// A sequence of `len` zero bytes.
pub open spec fn zeros(len: nat) -> Seq<u8> {
    Seq::new(len, |i: int| 0u8)
}

/// The text of a block: its index, its hash in hexadecimal and the length of
/// its data.
pub open spec fn block_text(index: u64, hash: Seq<u8>, len: nat) -> Seq<char> {
    "Block { index: "@ + decimal(index as nat) + ", hash: ["@ + hex_list(hash)
        + "], actual_size_bytes: "@ + decimal(len) + " }"@
}

/// Mathematical value of a [`Block`].
pub struct BlockModel {
    pub index: u64,
    pub hash: Seq<u8>,
    pub data: Seq<u8>,
}

impl View for Block {
    type V = BlockModel;

    closed spec fn view(&self) -> BlockModel {
        BlockModel { index: self.index, hash: self.hash@, data: self.data@ }
    }
}

impl Block {
    /// The bytes that the block holds.
    pub open spec fn bytes(&self) -> Seq<u8> {
        self@.data
    }

    /// A block with the given hash and no data yet.
    pub fn new(index: u64, hash: [u8; 32]) -> (block: Block)
        ensures
            block@.index == index,
            block@.hash == hash@,
            block.bytes() == Seq::<u8>::empty(),
    {
        Block { index, hash, data: Vec::new() }
    }

    /// A block of [`DEFAULT_BLOCK_SIZE`] zero bytes with a hash of zeros.
    pub fn new_block(index: u64) -> (block: Block)
        ensures
            block@.index == index,
            block@.hash == zeros(32),
            block.bytes() == zeros(DEFAULT_BLOCK_SIZE as nat),
    {
        let block = Block { index, hash: [0u8; 32], data: zero_bytes(DEFAULT_BLOCK_SIZE) };
        assert(block.hash@ =~= zeros(32));
        block
    }

    /// A copy of the block's bytes.
    pub fn get_data(&self) -> (data: Vec<u8>)
        ensures
            data@ == self.bytes(),
    {
        let mut data: Vec<u8> = Vec::new();
        let mut i: usize = 0;
        while i < self.data.len()
            invariant
                i <= self.data.len(),
                data@ == self.data@.subrange(0, i as int),
            decreases self.data.len() - i,
        {
            data.push(self.data[i]);
            assert(data@ =~= self.data@.subrange(0, i + 1));
            i += 1;
        }
        assert(data@ =~= self.data@);
        data
    }

    /// Accepts `data` for the block where it has the length of the block's
    /// data. The block keeps what it held.
    pub fn write_data(&mut self, data: &[u8]) -> (written: Result<(), BlockError>)
        ensures
            *final(self) == *old(self),
            data@.len() == old(self).bytes().len() ==> written is Ok,
            data@.len() != old(self).bytes().len() ==> written == Err::<(), BlockError>(
                BlockError::SizeMismatch,
            ),
    {
        if data.len() != self.data.len() {
            return Err(BlockError::SizeMismatch);
        }
        Ok(())
    }

    /// Reads the whole block: `length` zero bytes where `length` is the
    /// length of the block's data.
    pub fn read_data(&self, length: usize) -> (read: Result<Vec<u8>, BlockError>)
        ensures
            length == self.bytes().len() ==> (read matches Ok(bytes) && bytes@ == zeros(
                length as nat,
            )),
            length != self.bytes().len() ==> read == Err::<Vec<u8>, BlockError>(
                BlockError::SizeMismatch,
            ),
    {
        if length != self.data.len() {
            return Err(BlockError::SizeMismatch);
        }
        Ok(zero_bytes(length))
    }

    /// Describes the block in one line.
    pub fn to_string(&self) -> (text: String)
        ensures
            text@ == block_text(self@.index, self@.hash, self.bytes().len()),
    {
        let mut text = String::from_str("Block { index: ");
        append_decimal(&mut text, self.index as u128);
        text.append(", hash: [");
        append_hex_list(&mut text, self.hash.as_slice());
        text.append("], actual_size_bytes: ");
        append_decimal(&mut text, self.data.len() as u128);
        text.append(" }");
        text
    }
}

/// A vector of `len` zero bytes.
pub fn zero_bytes(len: usize) -> (bytes: Vec<u8>)
    ensures
        bytes@ == zeros(len as nat),
{
    let mut bytes: Vec<u8> = Vec::new();
    let mut i: usize = 0;
    while i < len
        invariant
            i <= len,
            bytes@ == zeros(i as nat),
        decreases len - i,
    {
        bytes.push(0u8);
        assert(bytes@ =~= zeros((i + 1) as nat));
        i += 1;
    }
    bytes
}

/// A device of `logical_size_bytes` bytes in blocks of `block_size_bytes`.
#[derive(Debug, Clone, PartialEq, Eq)]
pub struct BlockDevice {
    pub id: u128,
    pub logical_size_bytes: u64,
    pub block_size_bytes: usize,
    pub generation: u32,
    pub blocks: BTreeMap<u64, Block>,
}

/// The geometry of a device: where it ends and how long its blocks are.
pub struct Geometry {
    pub logical_size: int,
    pub block_size: int,
}

impl Geometry {
    /// Block that holds the byte at `offset`, and the byte's place in it;
    /// nothing where the device ends at or before `offset`.
    pub open spec fn locate(self, offset: int) -> Option<(int, int)> {
        if offset >= self.logical_size {
            None
        } else {
            Some((offset / self.block_size, offset % self.block_size))
        }
    }

    /// Block that holds the last of the `length` bytes from `offset`.
    pub open spec fn last_block(self, offset: int, length: int) -> int {
        (offset + length - 1) / self.block_size
    }

    /// Number of bytes from `offset` to the end of its block.
    pub open spec fn space(self, offset: int) -> int {
        self.block_size - offset % self.block_size
    }

    /// Number of the `length` bytes from `offset` that lie in the block of
    /// `offset`.
    pub open spec fn piece(self, offset: int, length: int) -> int {
        if length <= self.space(offset) {
            length
        } else {
            self.space(offset)
        }
    }

    /// Indices of the blocks that the `length` bytes from `offset` touch, in
    /// order; nothing where one of them starts at or after the end of the
    /// device.
    pub open spec fn span(self, offset: int, length: int) -> Option<Seq<u64>>
        decreases length,
    {
        if length <= 0 {
            Some(Seq::empty())
        } else if offset >= self.logical_size || self.space(offset) <= 0 {
            None
        } else if length <= self.space(offset) {
            Some(seq![(offset / self.block_size) as u64])
        } else {
            match self.span(offset + self.space(offset), length - self.space(offset)) {
                None => None,
                Some(rest) => Some(seq![(offset / self.block_size) as u64] + rest),
            }
        }
    }

    /// What a read of `length` bytes from `offset` returns, block by block. A
    /// block that the device holds must have the length of a block.
    pub open spec fn read(self, blocks: Map<u64, Block>, offset: int, length: int) -> Result<
        Seq<u8>,
        BlockError,
    >
        decreases length,
    {
        if length <= 0 {
            Ok(Seq::empty())
        } else if offset >= self.logical_size || self.space(offset) <= 0 {
            Err(BlockError::OutOfBounds)
        } else {
            let index = (offset / self.block_size) as u64;
            if blocks.contains_key(index) && blocks[index].bytes().len() != self.block_size {
                Err(BlockError::SizeMismatch)
            } else {
                match self.read(
                    blocks,
                    offset + self.piece(offset, length),
                    length - self.piece(offset, length),
                ) {
                    Err(e) => Err(e),
                    Ok(rest) => Ok(zeros(self.piece(offset, length) as nat) + rest),
                }
            }
        }
    }

    /// Outcome of a write of `length` bytes from `offset`, block by block,
    /// and the indices of the blocks it reached. A piece must fill its whole
    /// block: a new block has [`DEFAULT_BLOCK_SIZE`] bytes.
    pub open spec fn write(self, blocks: Map<u64, Block>, offset: int, length: int) -> (
        Set<u64>,
        Result<(), BlockError>,
    )
        decreases length,
    {
        if length <= 0 {
            (Set::empty(), Ok(()))
        } else if offset >= self.logical_size || self.space(offset) <= 0 {
            (Set::empty(), Err(BlockError::OutOfBounds))
        } else {
            let index = (offset / self.block_size) as u64;
            let held = if blocks.contains_key(index) {
                blocks[index].bytes().len() as int
            } else {
                DEFAULT_BLOCK_SIZE as int
            };
            if self.piece(offset, length) != held {
                (set![index], Err(BlockError::SizeMismatch))
            } else {
                let (reached, outcome) = self.write(
                    blocks,
                    offset + self.piece(offset, length),
                    length - self.piece(offset, length),
                );
                (reached.insert(index), outcome)
            }
        }
    }
}

impl BlockDevice {
    /// The blocks have a length.
    pub open spec fn wf(&self) -> bool {
        self.block_size_bytes > 0
    }

    /// The geometry of the device.
    pub open spec fn geometry(&self) -> Geometry {
        Geometry {
            logical_size: self.logical_size_bytes as int,
            block_size: self.block_size_bytes as int,
        }
    }

    /// What [`Self::translate_span_to_block_indices`] returns.
    pub open spec fn span(&self, byte_offset: int, length: int) -> Option<Seq<u64>> {
        if byte_offset >= self.logical_size_bytes {
            None
        } else {
            self.geometry().span(byte_offset, length)
        }
    }

    /// A device without blocks, in blocks of [`DEFAULT_BLOCK_SIZE`] bytes.
    pub fn new(id: u128, logical_size_bytes: u64) -> (device: BlockDevice)
        ensures
            device.id == id,
            device.logical_size_bytes == logical_size_bytes,
            device.block_size_bytes == DEFAULT_BLOCK_SIZE,
            device.generation == 1,
            device.blocks@ == Map::<u64, Block>::empty(),
            device.wf(),
    {
        BlockDevice {
            id,
            logical_size_bytes,
            block_size_bytes: DEFAULT_BLOCK_SIZE,
            generation: 1,
            blocks: BTreeMap::new(),
        }
    }

    /// Block that holds the byte at `byte_offset`, and the byte's place in
    /// the block.
    pub fn translate_byte_to_block_index(&self, byte_offset: u64) -> (place: Option<(u64, usize)>)
        requires
            self.wf() || byte_offset >= self.logical_size_bytes,
        ensures
            match (place, self.geometry().locate(byte_offset as int)) {
                (Some((index, within)), Some((i, w))) => index == i && within == w,
                (None, None) => true,
                _ => false,
            },
            place matches Some((_, within)) ==> within < self.block_size_bytes,
    {
        if byte_offset >= self.logical_size_bytes {
            return None;
        }
        let block_size: u64 = self.block_size_bytes as u64;
        let block_index: u64 = byte_offset / block_size;
        let offset_within_block: usize = (byte_offset % block_size) as usize;
        Some((block_index, offset_within_block))
    }

    /// Whether the device holds the block `block_index`.
    pub fn block_exists(&self, block_index: u64) -> (exists: bool)
        ensures
            exists == self.blocks@.contains_key(block_index),
    {
        self.blocks.contains_key(&block_index)
    }

    /// Indices of the blocks that the `length` bytes from `byte_offset`
    /// touch.
    pub fn translate_span_to_block_indices(&self, byte_offset: u64, length: usize) -> (indices:
        Option<Vec<u64>>)
        requires
            self.wf() || byte_offset >= self.logical_size_bytes,
        ensures
            match (indices, self.span(byte_offset as int, length as int)) {
                (Some(found), Some(span)) => found@ == span,
                (None, None) => true,
                _ => false,
            },
    {
        if byte_offset >= self.logical_size_bytes {
            return None;
        }
        let ghost geometry = self.geometry();
        let ghost wanted = self.span(byte_offset as int, length as int);
        let mut block_indices: Vec<u64> = Vec::new();
        let mut remaining_length: usize = length;
        let mut current_offset: u64 = byte_offset;
        while remaining_length > 0
            invariant
                self.wf(),
                geometry == self.geometry(),
                wanted == self.span(byte_offset as int, length as int),
                wanted == match geometry.span(current_offset as int, remaining_length as int) {
                    None => None,
                    Some(rest) => Some(block_indices@ + rest),
                },
            decreases remaining_length,
        {
            let (block_index, offset_within_block) = match self.translate_byte_to_block_index(
                current_offset,
            ) {
                Some(place) => place,
                None => { return None; },
            };
            let space_in_block: usize = self.block_size_bytes - offset_within_block;
            assert(space_in_block == geometry.space(current_offset as int));
            let ghost before = block_indices@;
            block_indices.push(block_index);
            if remaining_length <= space_in_block {
                assert(before + seq![block_index] =~= block_indices@);
                return Some(block_indices);
            }
            remaining_length -= space_in_block;
            if current_offset > u64::MAX - space_in_block as u64 {
                assert(geometry.span(current_offset + space_in_block, remaining_length as int)
                    is None);
                return None;
            }
            current_offset += space_in_block as u64;
            assert forall|rest: Seq<u64>|
                before + (seq![block_index] + rest) == block_indices@ + rest by {
                assert(before + (seq![block_index] + rest) =~= block_indices@ + rest);
            }
        }
        assert(block_indices@ + Seq::<u64>::empty() =~= block_indices@);
        Some(block_indices)
    }

    /// Writes `data` from `byte_offset` on, block by block. A block that is
    /// missing is created first. Every piece must fill its block; the walk
    /// stops at the first that does not.
    pub fn write(&mut self, byte_offset: u64, data: &[u8]) -> (written: Result<(), BlockError>)
        requires
            old(self).wf() || byte_offset >= old(self).logical_size_bytes,
        ensures
            final(self).id == old(self).id,
            final(self).logical_size_bytes == old(self).logical_size_bytes,
            final(self).block_size_bytes == old(self).block_size_bytes,
            final(self).generation == old(self).generation,
            forall|index: u64| #[trigger]
                old(self).blocks@.contains_key(index) ==> final(self).blocks@.contains_key(index)
                    && final(self).blocks@[index] == old(self).blocks@[index],
            old(self).span(byte_offset as int, data@.len() as int) is None ==> written == Err::<
                (),
                BlockError,
            >(BlockError::OutOfBounds) && final(self).blocks@ == old(self).blocks@,
            old(self).span(byte_offset as int, data@.len() as int) is Some ==> {
                let (reached, outcome) = old(self).geometry().write(
                    old(self).blocks@,
                    byte_offset as int,
                    data@.len() as int,
                );
                &&& written == outcome
                &&& final(self).blocks@.dom() == old(self).blocks@.dom() + reached
                &&& forall|index: u64|
                    reached.contains(index) && !old(self).blocks@.contains_key(index) ==> {
                        &&& (#[trigger] final(self).blocks@[index])@.index == index
                        &&& final(self).blocks@[index]@.hash == zeros(32)
                        &&& final(self).blocks@[index].bytes() == zeros(DEFAULT_BLOCK_SIZE as nat)
                    }
            },
    {
        if self.translate_span_to_block_indices(byte_offset, data.len()).is_none() {
            return Err(BlockError::OutOfBounds);
        }
        let ghost geometry = self.geometry();
        let ghost before = self.blocks@;
        let ghost total = geometry.write(before, byte_offset as int, data@.len() as int);
        let ghost mut done: Set<u64> = Set::empty();
        let mut consumed: usize = 0;
        let mut current_offset: u64 = byte_offset;
        assert(before.dom() + done =~= before.dom());
        while consumed < data.len()
            invariant
                self.wf(),
                geometry == self.geometry(),
                self.id == old(self).id,
                self.logical_size_bytes == old(self).logical_size_bytes,
                self.block_size_bytes == old(self).block_size_bytes,
                self.generation == old(self).generation,
                before == old(self).blocks@,
                old(self).span(byte_offset as int, data@.len() as int) is Some,
                consumed <= data@.len(),
                total == geometry.write(before, byte_offset as int, data@.len() as int),
                ({
                    let (reached, outcome) = geometry.write(
                        before,
                        current_offset as int,
                        data@.len() - consumed,
                    );
                    total == (done + reached, outcome)
                }),
                self.blocks@.dom() == before.dom() + done,
                forall|index: u64| #[trigger]
                    before.contains_key(index) ==> self.blocks@[index] == before[index],
                forall|index: u64|
                    done.contains(index) && !before.contains_key(index) ==> {
                        &&& (#[trigger] self.blocks@[index])@.index == index
                        &&& self.blocks@[index]@.hash == zeros(32)
                        &&& self.blocks@[index].bytes() == zeros(DEFAULT_BLOCK_SIZE as nat)
                    },
            decreases data@.len() - consumed,
        {
            let remaining: usize = data.len() - consumed;
            let (block_index, offset_within_block) = match self.translate_byte_to_block_index(
                current_offset,
            ) {
                Some(place) => place,
                None => {
                    assert(done + Set::<u64>::empty() =~= done);
                    return Err(BlockError::OutOfBounds);
                },
            };
            let space_in_block: usize = self.block_size_bytes - offset_within_block;
            assert(space_in_block == geometry.space(current_offset as int));
            let bytes_to_write: usize = if remaining <= space_in_block {
                remaining
            } else {
                space_in_block
            };
            let piece = slice_subrange(data, consumed, consumed + bytes_to_write);
            let ghost held_before = self.blocks@;
            let mut block = match self.blocks.remove(&block_index) {
                Some(block) => block,
                None => Block::new_block(block_index),
            };
            let outcome = block.write_data(piece);
            self.blocks.insert(block_index, block);
            let ghost (rest, rest_outcome) = geometry.write(
                before,
                current_offset + bytes_to_write,
                remaining - bytes_to_write,
            );
            proof {
                assert(self.blocks@.dom() =~= before.dom() + done.insert(block_index));
                if outcome is Err {
                    assert(done + set![block_index] =~= done.insert(block_index));
                } else {
                    assert(done + rest.insert(block_index) =~= done.insert(block_index) + rest);
                }
                done = done.insert(block_index);
            }
            if outcome.is_err() {
                return outcome;
            }
            consumed += bytes_to_write;
            if consumed < data.len() {
                if current_offset > u64::MAX - bytes_to_write as u64 {
                    assert(done + Set::<u64>::empty() =~= done);
                    return Err(BlockError::OutOfBounds);
                }
                current_offset += bytes_to_write as u64;
            } else {
                assert(done + Set::<u64>::empty() =~= done);
                return Ok(());
            }
        }
        assert(done + Set::<u64>::empty() =~= done);
        Ok(())
    }

    /// Reads `length` bytes from `byte_offset` on, block by block. A block
    /// that the device does not hold reads as zeros.
    pub fn read(&self, byte_offset: u64, length: usize) -> (read: Result<Vec<u8>, BlockError>)
        requires
            self.wf() || byte_offset >= self.logical_size_bytes,
        ensures
            self.span(byte_offset as int, length as int) is None ==> read == Err::<
                Vec<u8>,
                BlockError,
            >(BlockError::OutOfBounds),
            self.span(byte_offset as int, length as int) is Some ==> match (
                read,
                self.geometry().read(self.blocks@, byte_offset as int, length as int),
            ) {
                (Ok(bytes), Ok(expected)) => bytes@ == expected,
                (Err(e), Err(expected)) => e == expected,
                _ => false,
            },
    {
        if self.translate_span_to_block_indices(byte_offset, length).is_none() {
            return Err(BlockError::OutOfBounds);
        }
        let ghost geometry = self.geometry();
        let ghost total = geometry.read(self.blocks@, byte_offset as int, length as int);
        let mut result: Vec<u8> = Vec::new();
        let mut remaining_length: usize = length;
        let mut current_offset: u64 = byte_offset;
        while remaining_length > 0
            invariant
                self.wf(),
                geometry == self.geometry(),
                total == geometry.read(self.blocks@, byte_offset as int, length as int),
                self.span(byte_offset as int, length as int) is Some,
                total == match geometry.read(
                    self.blocks@,
                    current_offset as int,
                    remaining_length as int,
                ) {
                    Err(e) => Err(e),
                    Ok(rest) => Ok(result@ + rest),
                },
            decreases remaining_length,
        {
            let (block_index, offset_within_block) = match self.translate_byte_to_block_index(
                current_offset,
            ) {
                Some(place) => place,
                None => { return Err(BlockError::OutOfBounds); },
            };
            let space_in_block: usize = self.block_size_bytes - offset_within_block;
            assert(space_in_block == geometry.space(current_offset as int));
            let bytes_to_read: usize = if remaining_length <= space_in_block {
                remaining_length
            } else {
                space_in_block
            };
            let block_data: Vec<u8> = match self.blocks.get(&block_index) {
                Some(block) => match block.read_data(self.block_size_bytes) {
                    Ok(bytes) => bytes,
                    Err(e) => { return Err(e); },
                },
                None => zero_bytes(self.block_size_bytes),
            };
            let ghost so_far = result@;
            append_range(
                &mut result,
                block_data.as_slice(),
                offset_within_block,
                offset_within_block + bytes_to_read,
            );
            assert(block_data@.subrange(
                offset_within_block as int,
                offset_within_block + bytes_to_read,
            ) =~= zeros(bytes_to_read as nat));
            remaining_length -= bytes_to_read;
            if remaining_length > 0 {
                if current_offset > u64::MAX - bytes_to_read as u64 {
                    assert(geometry.read(
                        self.blocks@,
                        current_offset + bytes_to_read,
                        remaining_length as int,
                    ) == Err::<Seq<u8>, BlockError>(BlockError::OutOfBounds));
                    return Err(BlockError::OutOfBounds);
                }
                current_offset += bytes_to_read as u64;
            } else {
                assert(geometry.read(self.blocks@, current_offset + bytes_to_read, 0) == Ok::<
                    Seq<u8>,
                    BlockError,
                >(Seq::empty()));
                assert(so_far + (zeros(bytes_to_read as nat) + Seq::<u8>::empty()) =~= result@);
                return Ok(result);
            }
            assert forall|rest: Seq<u8>|
                so_far + (zeros(bytes_to_read as nat) + rest) == result@ + rest by {
                assert(so_far + (zeros(bytes_to_read as nat) + rest) =~= result@ + rest);
            }
        }
        assert(result@ + Seq::<u8>::empty() =~= result@);
        Ok(result)
    }
}

/// The blocks that a span touches are consecutive: the first holds the
/// first byte, and each following one is the next block of the device.
pub proof fn span_is_consecutive(geometry: Geometry, offset: int, length: int)
    requires
        geometry.block_size > 0,
        0 <= offset,
        geometry.logical_size <= u64::MAX,
    ensures
        geometry.span(offset, length) matches Some(indices) ==> {
            &&& length <= 0 ==> indices.len() == 0
            &&& length > 0 ==> indices.len() == geometry.last_block(offset, length) - offset
                / geometry.block_size + 1
            &&& forall|k: int|
                0 <= k < indices.len() ==> #[trigger] indices[k] == offset / geometry.block_size
                    + k
        },
    decreases length,
{
    let size = geometry.block_size;
    if length > 0 && geometry.span(offset, length) is Some {
        let within = offset % size;
        let index = offset / size;
        let space = geometry.space(offset);
        assert(offset == size * index + within && 0 <= within < size && 0 <= index <= offset)
            by (nonlinear_arith)
            requires
                within == offset % size,
                index == offset / size,
                size > 0,
                offset >= 0,
        ;
        if length <= space {
            assert((offset + length - 1) / size == index) by (nonlinear_arith)
                requires
                    offset == size * index + within,
                    0 <= within,
                    0 < length <= size - within,
                    size > 0,
            ;
        } else {
            let next = offset + space;
            let rest = geometry.span(next, length - space)->Some_0;
            span_is_consecutive(geometry, next, length - space);
            assert(next == size * (index + 1)) by (nonlinear_arith)
                requires
                    next == offset + size - within,
                    offset == size * index + within,
            ;
            assert(next / size == index + 1) by (nonlinear_arith)
                requires
                    next == size * (index + 1),
                    size > 0,
            ;
            assert((next + (length - space) - 1) == offset + length - 1);
            let indices = geometry.span(offset, length)->Some_0;
            assert(indices =~= seq![index as u64] + rest);
            assert forall|k: int| 0 <= k < indices.len() implies #[trigger] indices[k] == index
                + k by {
                if k > 0 {
                    assert(indices[k] == rest[k - 1]);
                }
            }
        }
    }
}

/// A span is refused exactly where it has a byte and its first byte lies at
/// or after the end of the device, or it goes on into a block that starts
/// at or after the end.
pub proof fn span_is_refused_past_the_end(geometry: Geometry, offset: int, length: int)
    requires
        geometry.block_size > 0,
        0 <= offset,
    ensures
        geometry.span(offset, length) is None <==> length > 0 && (offset >= geometry.logical_size
            || (geometry.last_block(offset, length) > offset / geometry.block_size
            && geometry.last_block(offset, length) * geometry.block_size
            >= geometry.logical_size)),
    decreases length,
{
    let size = geometry.block_size;
    if length > 0 && offset < geometry.logical_size {
        let within = offset % size;
        let index = offset / size;
        let space = geometry.space(offset);
        let last = (offset + length - 1) / size;
        assert(offset == size * index + within && 0 <= within < size && 0 <= index) by (nonlinear_arith)
            requires
                within == offset % size,
                index == offset / size,
                size > 0,
                offset >= 0,
        ;
        if length <= space {
            assert(last == index) by (nonlinear_arith)
                requires
                    last == (offset + length - 1) / size,
                    offset == size * index + within,
                    0 <= within,
                    0 < length <= size - within,
                    size > 0,
            ;
        } else {
            let next = offset + space;
            span_is_refused_past_the_end(geometry, next, length - space);
            assert(next == size * (index + 1)) by (nonlinear_arith)
                requires
                    next == offset + size - within,
                    offset == size * index + within,
            ;
            assert(next / size == index + 1) by (nonlinear_arith)
                requires
                    next == size * (index + 1),
                    size > 0,
            ;
            assert((next + (length - space) - 1) == offset + length - 1);
            assert(last >= index + 1) by (nonlinear_arith)
                requires
                    last == (offset + length - 1) / size,
                    offset + length - 1 >= size * (index + 1),
                    size > 0,
            ;
            assert(last * size >= next) by (nonlinear_arith)
                requires
                    last >= index + 1,
                    next == size * (index + 1),
                    size > 0,
            ;
            if last == index + 1 {
                assert(last * size == next) by (nonlinear_arith)
                    requires
                        last == index + 1,
                        next == size * (index + 1),
                ;
            }
        }
    }
}

/// What a read returns is all zeros, as many as were asked for.
pub proof fn read_returns_zeros(geometry: Geometry, blocks: Map<u64, Block>, offset: int, length: int)
    requires
        0 <= length,
    ensures
        geometry.read(blocks, offset, length) matches Ok(bytes) ==> bytes == zeros(length as nat),
    decreases length,
{
    if length > 0 && geometry.read(blocks, offset, length) is Ok {
        let piece = geometry.piece(offset, length);
        read_returns_zeros(geometry, blocks, offset + piece, length - piece);
        let rest = geometry.read(blocks, offset + piece, length - piece)->Ok_0;
        assert(zeros(piece as nat) + rest =~= zeros(length as nat));
    } else if length == 0 {
        assert(Seq::<u8>::empty() =~= zeros(0));
    }
}

} // verus!
