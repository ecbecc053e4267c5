//! The wire format of a network block device and what a request does to the
//! bytes of the device. Numbers travel in big-endian order.

use vstd::prelude::*;
use crate::buffer::append_range;

verus! {

/// What opens every request.
pub const NBD_REQUEST_MAGIC: u32 = 0x2560_9513;

/// What opens every reply.
pub const NBD_REPLY_MAGIC: u32 = 0x6744_6698;

pub const NBD_CMD_READ: u32 = 0;

pub const NBD_CMD_WRITE: u32 = 1;

pub const NBD_CMD_DISC: u32 = 2;

pub const NBD_CMD_FLUSH: u32 = 3;

/// Length in bytes of a request header.
pub const REQUEST_LEN: usize = 28;

/// Length in bytes of a reply header.
pub const REPLY_LEN: usize = 16;

/// The header of one request.
#[derive(Debug, Clone, Copy, PartialEq, Eq)]
pub struct Req {
    pub cmd: u32,
    pub handle: [u8; 8],
    pub offset: u64,
    pub len: u32,
}

/// Why a header is no request.
#[derive(Debug, Clone, Copy, PartialEq, Eq, Structural)]
pub enum HeaderError {
    /// The header opens with this number in place of the request magic.
    BadMagic(u32),
}

/// How a request ended.
#[derive(Debug, Clone, Copy, PartialEq, Eq, Structural)]
pub enum Status {
    /// The request was carried out.
    Done,
    /// The byte range does not lie within the device.
    Invalid,
    /// The command is none that the device carries out.
    Unsupported,
}

/// What the server does after a request.
#[derive(Debug, Clone, PartialEq, Eq)]
pub enum Answer {
    /// Send a reply with this status, followed by these bytes.
    Reply { status: Status, data: Vec<u8> },
    /// The client is leaving: send nothing and stop.
    Disconnect,
}

/// The number that the four bytes from `at` on spell.
pub open spec fn be32(bytes: Seq<u8>, at: int) -> u32 {
    (bytes[at] * 0x100_0000 + bytes[at + 1] * 0x1_0000 + bytes[at + 2] * 0x100 + bytes[at + 3]) as u32
}

/// The number that the eight bytes from `at` on spell.
pub open spec fn be64(bytes: Seq<u8>, at: int) -> u64 {
    (be32(bytes, at) * 0x1_0000_0000 + be32(bytes, at + 4)) as u64
}

/// The four bytes that spell `value`.
pub open spec fn be32_bytes(value: u32) -> Seq<u8> {
    seq![
        (value / 0x100_0000) as u8,
        (value / 0x1_0000 % 0x100) as u8,
        (value / 0x100 % 0x100) as u8,
        (value % 0x100) as u8,
    ]
}

/// The code of a device control request without argument: the group in the
/// second byte, the number in the first.
pub open spec fn ioc_code(group: u8, num: u8) -> u64 {
    (group * 0x100 + num) as u64
}

/// The code of the device control request `num` of `group`.
pub fn ioc_none(group: u8, num: u8) -> (code: u64)
    ensures
        code == ioc_code(group, num),
{
    (group as u64) * 0x100 + num as u64
}

/// Reads the four bytes from `at` on as a number.
pub fn read_be32(bytes: &[u8], at: usize) -> (value: u32)
    requires
        at + 4 <= bytes@.len(),
    ensures
        value == be32(bytes@, at as int),
{
    (bytes[at] as u32) * 0x100_0000 + (bytes[at + 1] as u32) * 0x1_0000 + (bytes[at + 2] as u32)
        * 0x100 + bytes[at + 3] as u32
}

/// Appends the four bytes that spell `value`.
pub fn write_be32(out: &mut Vec<u8>, value: u32)
    ensures
        final(out)@ == old(out)@ + be32_bytes(value),
{
    out.push((value / 0x100_0000) as u8);
    out.push((value / 0x1_0000 % 0x100) as u8);
    out.push((value / 0x100 % 0x100) as u8);
    out.push((value % 0x100) as u8);
    assert(out@ =~= old(out)@ + be32_bytes(value));
}

/// The bytes that spell a number spell that number.
pub proof fn be32_round_trip(value: u32)
    ensures
        be32(be32_bytes(value), 0) == value,
        be32_bytes(value).len() == 4,
{
}

/// What a header says where it opens with the request magic: the command,
/// the handle, the offset and the length, in that order.
pub open spec fn request_of(header: Seq<u8>) -> Result<Req, HeaderError> {
    if be32(header, 0) != NBD_REQUEST_MAGIC {
        Err(HeaderError::BadMagic(be32(header, 0)))
    } else {
        Ok(
            Req {
                cmd: be32(header, 4),
                handle: handle_of(header),
                offset: be64(header, 16),
                len: be32(header, 24),
            },
        )
    }
}

/// The handle in a header: its bytes 8 to 15.
pub open spec fn handle_of(header: Seq<u8>) -> [u8; 8] {
    choose|handle: [u8; 8]| handle@ == header.subrange(8, 16)
}

/// Reads a request header.
pub fn parse_request(header: &[u8; 28]) -> (request: Result<Req, HeaderError>)
    ensures
        request == request_of(header@),
        request matches Ok(req) ==> req.handle@ == header@.subrange(8, 16),
{
    let bytes = header.as_slice();
    let magic = read_be32(bytes, 0);
    if magic != NBD_REQUEST_MAGIC {
        return Err(HeaderError::BadMagic(magic));
    }
    let cmd = read_be32(bytes, 4);
    let handle: [u8; 8] = [
        header[8],
        header[9],
        header[10],
        header[11],
        header[12],
        header[13],
        header[14],
        header[15],
    ];
    let high: u64 = read_be32(bytes, 16) as u64;
    let low: u64 = read_be32(bytes, 20) as u64;
    let offset: u64 = high * 0x1_0000_0000 + low;
    let len = read_be32(bytes, 24);
    proof {
        assert(handle@ =~= header@.subrange(8, 16));
        let chosen = handle_of(header@);
        assert(chosen@ == header@.subrange(8, 16));
        assert(chosen =~= handle);
    }
    Ok(Req { cmd, handle, offset, len })
}

/// The header of the reply to the request `handle`: the reply magic, the
/// error number and the handle.
pub open spec fn reply_bytes(handle: [u8; 8], error: u32) -> Seq<u8> {
    be32_bytes(NBD_REPLY_MAGIC) + be32_bytes(error) + handle@
}

/// Writes a reply header.
pub fn encode_reply(handle: &[u8; 8], error: u32) -> (reply: Vec<u8>)
    ensures
        reply@ == reply_bytes(*handle, error),
        reply@.len() == REPLY_LEN,
{
    let mut reply: Vec<u8> = Vec::new();
    write_be32(&mut reply, NBD_REPLY_MAGIC);
    write_be32(&mut reply, error);
    append_range(&mut reply, handle.as_slice(), 0, 8);
    assert(handle@.subrange(0, 8) =~= handle@);
    reply
}

/// Number of bytes that follow the header of a request: the bytes to write.
pub fn payload_length(req: &Req) -> (length: u32)
    ensures
        length == if req.cmd == NBD_CMD_WRITE {
            req.len
        } else {
            0
        },
{
    if req.cmd == NBD_CMD_WRITE {
        req.len
    } else {
        0
    }
}

/// The bytes of the device after `payload` was written at `offset`.
pub open spec fn overwritten(device: Seq<u8>, offset: int, payload: Seq<u8>) -> Seq<u8> {
    device.subrange(0, offset) + payload + device.subrange(
        offset + payload.len(),
        device.len() as int,
    )
}

/// What a request does to the bytes of the device and what is answered.
pub open spec fn served(device: Seq<u8>, req: Req, payload: Seq<u8>) -> (Seq<u8>, Status, Seq<u8>) {
    if req.cmd == NBD_CMD_READ {
        if req.offset + req.len <= device.len() {
            (device, Status::Done, device.subrange(req.offset as int, req.offset + req.len))
        } else {
            (device, Status::Invalid, Seq::empty())
        }
    } else if req.cmd == NBD_CMD_WRITE {
        if req.offset + payload.len() <= device.len() {
            (overwritten(device, req.offset as int, payload), Status::Done, Seq::empty())
        } else {
            (device, Status::Invalid, Seq::empty())
        }
    } else if req.cmd == NBD_CMD_FLUSH {
        (device, Status::Done, Seq::empty())
    } else {
        (device, Status::Unsupported, Seq::empty())
    }
}

/// Carries out one request on the bytes of the device. `payload` holds the
/// bytes that came with a write.
pub fn serve(device: &mut Vec<u8>, req: &Req, payload: &[u8]) -> (answer: Answer)
    ensures
        req.cmd == NBD_CMD_DISC ==> answer == Answer::Disconnect && final(device)@ == old(
            device,
        )@,
        req.cmd != NBD_CMD_DISC ==> {
            let (after, served_status, served_data) = served(old(device)@, *req, payload@);
            &&& final(device)@ == after
            &&& answer matches Answer::Reply { status, data }
            &&& status == served_status
            &&& data@ == served_data
        },
{
    if req.cmd == NBD_CMD_DISC {
        return Answer::Disconnect;
    }
    let size: u64 = device.len() as u64;
    if req.cmd == NBD_CMD_READ {
        if req.offset <= size && req.len as u64 <= size - req.offset {
            let from: usize = req.offset as usize;
            let mut data: Vec<u8> = Vec::new();
            append_range(&mut data, device.as_slice(), from, from + req.len as usize);
            Answer::Reply { status: Status::Done, data }
        } else {
            Answer::Reply { status: Status::Invalid, data: Vec::new() }
        }
    } else if req.cmd == NBD_CMD_WRITE {
        if req.offset <= size && payload.len() as u64 <= size - req.offset {
            let from: usize = req.offset as usize;
            let ghost before = device@;
            let mut i: usize = 0;
            assert(device@ =~= overwritten(before, from as int, payload@.subrange(0, 0)));
            while i < payload.len()
                invariant
                    i <= payload@.len(),
                    from + payload@.len() <= before.len(),
                    before.len() <= usize::MAX,
                    device@.len() == before.len(),
                    device@ == overwritten(before, from as int, payload@.subrange(0, i as int)),
                decreases payload@.len() - i,
            {
                device.set(from + i, payload[i]);
                assert(device@ =~= overwritten(before, from as int, payload@.subrange(0, i + 1)));
                i += 1;
            }
            assert(payload@.subrange(0, payload@.len() as int) =~= payload@);
            Answer::Reply { status: Status::Done, data: Vec::new() }
        } else {
            Answer::Reply { status: Status::Invalid, data: Vec::new() }
        }
    } else if req.cmd == NBD_CMD_FLUSH {
        Answer::Reply { status: Status::Done, data: Vec::new() }
    } else {
        Answer::Reply { status: Status::Unsupported, data: Vec::new() }
    }
}

} // verus!
