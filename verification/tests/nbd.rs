use kvfs::nbd::{
    encode_reply, ioc_none, parse_request, payload_length, read_be32, serve, write_be32, Answer,
    HeaderError, Req, Status, NBD_CMD_DISC, NBD_CMD_FLUSH, NBD_CMD_READ, NBD_CMD_WRITE,
    NBD_REPLY_MAGIC, NBD_REQUEST_MAGIC,
};

fn header(magic: u32, cmd: u32, handle: [u8; 8], offset: u64, len: u32) -> [u8; 28] {
    let mut bytes = [0u8; 28];
    bytes[0..4].copy_from_slice(&magic.to_be_bytes());
    bytes[4..8].copy_from_slice(&cmd.to_be_bytes());
    bytes[8..16].copy_from_slice(&handle);
    bytes[16..24].copy_from_slice(&offset.to_be_bytes());
    bytes[24..28].copy_from_slice(&len.to_be_bytes());
    bytes
}

fn req(cmd: u32, offset: u64, len: u32) -> Req {
    Req { cmd, handle: [0; 8], offset, len }
}

#[test]
fn control_codes() {
    assert_eq!(ioc_none(0xab, 0), 0xab00);
    assert_eq!(ioc_none(0xab, 3), 0xab03);
    assert_eq!(ioc_none(0xff, 0xff), 0xffff);
    assert_eq!(ioc_none(0, 0), 0);
}

#[test]
fn numbers_are_big_endian() {
    assert_eq!(read_be32(&[0x12, 0x34, 0x56, 0x78], 0), 0x12345678);
    assert_eq!(read_be32(&[9, 0xff, 0xff, 0xff, 0xff], 1), u32::MAX);
    assert_eq!(read_be32(&[0, 0, 0, 1], 0), 1);
    let mut out = vec![7u8];
    write_be32(&mut out, 0x12345678);
    assert_eq!(out, vec![7, 0x12, 0x34, 0x56, 0x78]);
    for value in [0u32, 1, 255, 256, 0x6744_6698, u32::MAX] {
        let mut out = Vec::new();
        write_be32(&mut out, value);
        assert_eq!(out, value.to_be_bytes());
        assert_eq!(read_be32(&out, 0), value);
    }
}

#[test]
fn requests_are_parsed() {
    let handle = [1, 2, 3, 4, 5, 6, 7, 8];
    let bytes = header(NBD_REQUEST_MAGIC, NBD_CMD_WRITE, handle, 0x0102_0304_0506_0708, 4096);
    assert_eq!(
        parse_request(&bytes),
        Ok(Req { cmd: 1, handle, offset: 0x0102_0304_0506_0708, len: 4096 })
    );
    let last = header(NBD_REQUEST_MAGIC, u32::MAX, [0xff; 8], u64::MAX, u32::MAX);
    assert_eq!(
        parse_request(&last),
        Ok(Req { cmd: u32::MAX, handle: [0xff; 8], offset: u64::MAX, len: u32::MAX })
    );
}

#[test]
fn a_wrong_magic_is_refused() {
    let bytes = header(NBD_REPLY_MAGIC, 0, [0; 8], 0, 0);
    assert_eq!(parse_request(&bytes), Err(HeaderError::BadMagic(0x6744_6698)));
    assert_eq!(parse_request(&[0u8; 28]), Err(HeaderError::BadMagic(0)));
}

#[test]
fn replies_are_laid_out() {
    let handle = [9, 8, 7, 6, 5, 4, 3, 2];
    assert_eq!(
        encode_reply(&handle, 22),
        vec![0x67, 0x44, 0x66, 0x98, 0, 0, 0, 22, 9, 8, 7, 6, 5, 4, 3, 2]
    );
    assert_eq!(encode_reply(&[0; 8], 0)[4..8], [0, 0, 0, 0]);
    assert_eq!(encode_reply(&[0; 8], u32::MAX)[4..8], [0xff; 4]);
}

#[test]
fn only_writes_carry_bytes() {
    assert_eq!(payload_length(&req(NBD_CMD_WRITE, 0, 77)), 77);
    assert_eq!(payload_length(&req(NBD_CMD_READ, 0, 77)), 0);
    assert_eq!(payload_length(&req(NBD_CMD_FLUSH, 0, 77)), 0);
    assert_eq!(payload_length(&req(NBD_CMD_DISC, 0, 77)), 0);
}

#[test]
fn reads_return_the_range() {
    let mut device: Vec<u8> = (0..100).collect();
    let before = device.clone();
    assert_eq!(
        serve(&mut device, &req(NBD_CMD_READ, 10, 5), &[]),
        Answer::Reply { status: Status::Done, data: vec![10, 11, 12, 13, 14] }
    );
    assert_eq!(
        serve(&mut device, &req(NBD_CMD_READ, 0, 100), &[]),
        Answer::Reply { status: Status::Done, data: before.clone() }
    );
    assert_eq!(
        serve(&mut device, &req(NBD_CMD_READ, 100, 0), &[]),
        Answer::Reply { status: Status::Done, data: vec![] }
    );
    for (offset, len) in [(96, 5), (101, 0), (u64::MAX, 1), (0, u32::MAX)] {
        assert_eq!(
            serve(&mut device, &req(NBD_CMD_READ, offset, len), &[]),
            Answer::Reply { status: Status::Invalid, data: vec![] }
        );
    }
    assert_eq!(device, before);
}

#[test]
fn writes_replace_the_range() {
    let mut device = vec![0u8; 10];
    assert_eq!(
        serve(&mut device, &req(NBD_CMD_WRITE, 3, 4), &[1, 2, 3, 4]),
        Answer::Reply { status: Status::Done, data: vec![] }
    );
    assert_eq!(device, vec![0, 0, 0, 1, 2, 3, 4, 0, 0, 0]);
    assert_eq!(
        serve(&mut device, &req(NBD_CMD_WRITE, 8, 2), &[9, 9]),
        Answer::Reply { status: Status::Done, data: vec![] }
    );
    assert_eq!(device, vec![0, 0, 0, 1, 2, 3, 4, 0, 9, 9]);
    assert_eq!(
        serve(&mut device, &req(NBD_CMD_WRITE, 9, 2), &[5, 5]),
        Answer::Reply { status: Status::Invalid, data: vec![] }
    );
    assert_eq!(
        serve(&mut device, &req(NBD_CMD_WRITE, u64::MAX, 1), &[5]),
        Answer::Reply { status: Status::Invalid, data: vec![] }
    );
    assert_eq!(device, vec![0, 0, 0, 1, 2, 3, 4, 0, 9, 9]);
}

#[test]
fn other_commands() {
    let mut device = vec![1u8; 4];
    assert_eq!(
        serve(&mut device, &req(NBD_CMD_FLUSH, 0, 0), &[]),
        Answer::Reply { status: Status::Done, data: vec![] }
    );
    assert_eq!(serve(&mut device, &req(NBD_CMD_DISC, 0, 0), &[]), Answer::Disconnect);
    assert_eq!(
        serve(&mut device, &req(4, 0, 4), &[]),
        Answer::Reply { status: Status::Unsupported, data: vec![] }
    );
    assert_eq!(device, vec![1u8; 4]);
}
