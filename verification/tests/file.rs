use kvfs::attributes::block_count;
use kvfs::checksum::calculate_checksum;
use kvfs::chunk::Chunk;
use kvfs::file::{append_piece, chunk_length, clamp_range, covering_chunks, File, CHUNK_SIZE};
use kvfs::manage::FsManagable;
use kvfs::inode::InodeKind;

fn pattern(len: usize) -> Vec<u8> {
    (0..len).map(|i| (i % 251) as u8).collect()
}

#[test]
fn block_count_rounds_up() {
    assert_eq!(block_count(0, 4096), 0);
    assert_eq!(block_count(1, 4096), 1);
    assert_eq!(block_count(4096, 4096), 1);
    assert_eq!(block_count(4097, 4096), 2);
    assert_eq!(block_count(u64::MAX, 4096), 4503599627370496);
    assert_eq!(block_count(10, 1), 10);
}

#[test]
fn empty_file_has_no_content() {
    let file = File::empty(9);
    assert_eq!(file.id, 9);
    assert_eq!(file.size, 0);
    assert_eq!(file.content_hash, [0u8; 32]);
    assert!(file.chunks.is_empty());
    assert!(file.is_well_formed());
}

#[test]
fn file_attributes() {
    let data = pattern(5000);
    let attr = File::new_from_data(3, &data).get_entry_attributes(44);
    assert_eq!(attr.ino, 44);
    assert_eq!(attr.kind, InodeKind::File);
    assert_eq!(attr.size, 5000);
    assert_eq!(attr.blocks, 2);
    assert_eq!(attr.perm, 0o644);
    assert_eq!(attr.nlink, 1);
    assert_eq!(attr.uid, 1000);
    assert_eq!(attr.gid, 1000);
    let empty = File::empty(3).get_entry_attributes(44);
    assert_eq!(empty.size, 0);
    assert_eq!(empty.blocks, 0);
}

#[test]
fn content_is_split_into_chunks() {
    let data = pattern(10000);
    let file = File::new_from_data(21, &data);
    assert_eq!(file.id, 21);
    assert_eq!(file.size, 10000);
    assert_eq!(file.content_hash, calculate_checksum(&data));
    assert_eq!(file.chunks.len(), 3);
    assert_eq!(file.chunks[0], Chunk::new_from_data(21, 0, &data[0..4096]));
    assert_eq!(file.chunks[1], Chunk::new_from_data(21, 1, &data[4096..8192]));
    assert_eq!(file.chunks[2], Chunk::new_from_data(21, 2, &data[8192..10000]));
    assert_eq!(file.chunks[2].size, 1808);
    assert!(file.is_well_formed());
}

#[test]
fn content_of_whole_chunks() {
    let data = pattern(8192);
    let file = File::new_from_data(1, &data);
    assert_eq!(file.chunks.len(), 2);
    assert_eq!(file.chunks[1].size, 4096);
    let none = File::new_from_data(1, &[]);
    assert!(none.chunks.is_empty());
    assert_eq!(none.size, 0);
    assert_eq!(none.content_hash, calculate_checksum(&[]));
    let one = File::new_from_data(1, &[5]);
    assert_eq!(one.chunks.len(), 1);
    assert_eq!(one.chunks[0].size, 1);
}

#[test]
fn ill_formed_files_are_told() {
    let data = pattern(5000);
    let mut file = File::new_from_data(2, &data);
    file.size = 9000;
    assert!(!file.is_well_formed());
    let mut file = File::new_from_data(2, &data);
    file.chunks[1].idx = 5;
    assert!(!file.is_well_formed());
    let mut file = File::new_from_data(2, &data);
    file.chunks[0].file_id = 3;
    assert!(!file.is_well_formed());
    let mut file = File::new_from_data(2, &data);
    file.chunks[1].size = 4096;
    assert!(!file.is_well_formed());
    let mut file = File::new_from_data(2, &data);
    file.chunks.pop();
    assert!(!file.is_well_formed());
}

#[test]
fn chunk_lengths() {
    assert_eq!(CHUNK_SIZE, 4096);
    assert_eq!(chunk_length(10000, 0), 4096);
    assert_eq!(chunk_length(10000, 1), 4096);
    assert_eq!(chunk_length(10000, 2), 1808);
    assert_eq!(chunk_length(10000, 3), 0);
    assert_eq!(chunk_length(8192, 2), 0);
    assert_eq!(chunk_length(0, 0), 0);
}

#[test]
fn ranges_are_held_to_the_size() {
    assert_eq!(clamp_range(100, 10, 20), (10, 30));
    assert_eq!(clamp_range(100, 90, 20), (90, 100));
    assert_eq!(clamp_range(100, 100, 20), (100, 100));
    assert_eq!(clamp_range(100, 500, 20), (100, 100));
    assert_eq!(clamp_range(100, 0, 0), (0, 0));
    assert_eq!(clamp_range(100, 5, u64::MAX), (5, 100));
    assert_eq!(clamp_range(u64::MAX, u64::MAX - 1, u64::MAX), (u64::MAX - 1, u64::MAX));
}

#[test]
fn chunks_that_cover_a_range() {
    assert_eq!(covering_chunks(0, 0), (0, 0));
    assert_eq!(covering_chunks(0, 1), (0, 1));
    assert_eq!(covering_chunks(0, 4096), (0, 1));
    assert_eq!(covering_chunks(0, 4097), (0, 2));
    assert_eq!(covering_chunks(4095, 4097), (0, 2));
    assert_eq!(covering_chunks(4096, 4097), (1, 2));
    assert_eq!(covering_chunks(5000, 5000), (1, 1));
    assert_eq!(covering_chunks(8192, 10000), (2, 3));
}

#[test]
fn pieces_of_chunks() {
    let payload = pattern(4096);
    let mut out = vec![9u8];
    append_piece(&mut out, &payload, 1, 4100, 4110);
    assert_eq!(out[0], 9);
    assert_eq!(&out[1..], &payload[4..14]);
    let mut out = Vec::new();
    append_piece(&mut out, &payload, 1, 0, 5000);
    assert_eq!(out, &payload[0..904]);
    let mut out = Vec::new();
    append_piece(&mut out, &payload, 1, 5000, 100000);
    assert_eq!(out, &payload[904..]);
    let mut out = Vec::new();
    append_piece(&mut out, &payload, 1, 0, 4096);
    assert!(out.is_empty());
    let mut out = Vec::new();
    append_piece(&mut out, &payload, 0, 4096, 9000);
    assert!(out.is_empty());
}
