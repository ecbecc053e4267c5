use kvfs::chunk::{copy_chunks, Chunk};
use kvfs::fs_entry::{make_attributes, FSEntry, FSEntryBase, FileEntry, Metadata};
use kvfs::inode::InodeKind;

fn metadata() -> Metadata {
    Metadata {
        created_at: 10,
        modified_at: 20,
        accessed_at: 30,
        changed_at: 40,
        permissions: 0o640,
        uid: 7,
        gid: 8,
        rdev: 9,
        flags: 11,
    }
}

fn base() -> FSEntryBase {
    FSEntryBase { inode: 5, name: "notes".to_string(), metadata: metadata() }
}

fn chunk(idx: u64) -> Chunk {
    Chunk { file_id: 1, idx, id: 100 + idx as u128, size: 4096, hash: [idx as u8; 32] }
}

fn entry(count: u64) -> FileEntry {
    FileEntry::new(base(), 4096 * count, (0..count).map(chunk).collect(), [1u8; 32])
}

fn indices(chunks: &[Chunk]) -> Vec<u64> {
    chunks.iter().map(|chunk| chunk.idx).collect()
}

#[test]
fn file_entry_answers_what_it_was_made_of() {
    let entry = entry(3);
    assert_eq!(entry.get_size(), 12288);
    assert_eq!(entry.size, 12288);
    assert_eq!(entry.checksum, [1u8; 32]);
    assert_eq!(entry.get_name(), "notes");
    assert_eq!(entry.get_inode(), 5);
    assert_eq!(*entry.get_metadata(), metadata());
    assert_eq!(entry.get_chunks(), vec![chunk(0), chunk(1), chunk(2)]);
}

#[test]
fn file_entry_attributes() {
    let attr = FileEntry::new(base(), 5000, Vec::new(), [0u8; 32]).make_file_attr();
    assert_eq!(attr.ino, 5);
    assert_eq!(attr.size, 5000);
    assert_eq!(attr.blocks, 2);
    assert_eq!(attr.atime, 30);
    assert_eq!(attr.mtime, 20);
    assert_eq!(attr.ctime, 40);
    assert_eq!(attr.crtime, 10);
    assert_eq!(attr.kind, InodeKind::File);
    assert_eq!(attr.perm, 0o640);
    assert_eq!(attr.nlink, 1);
    assert_eq!(attr.uid, 7);
    assert_eq!(attr.gid, 8);
    assert_eq!(attr.rdev, 9);
    assert_eq!(attr.flags, 11);
    let full = FileEntry::new(base(), u64::MAX, Vec::new(), [0u8; 32]).make_file_attr();
    assert_eq!(full.blocks, 1 << 52);
}

#[test]
fn times_past_the_signed_range_wrap() {
    let mut late = metadata();
    late.accessed_at = u64::MAX;
    late.created_at = 1 << 63;
    let attr = make_attributes(1, &late, InodeKind::Directory, 0, 0, 2);
    assert_eq!(attr.atime, -1);
    assert_eq!(attr.crtime, i64::MIN);
    assert_eq!(attr.mtime, 20);
    assert_eq!(attr.kind, InodeKind::Directory);
    assert_eq!(attr.nlink, 2);
}

#[test]
fn chunks_in_range() {
    let entry = entry(5);
    assert_eq!(indices(&entry.get_chunks_in_range(1, 3)), vec![1, 2, 3]);
    assert_eq!(indices(&entry.get_chunks_in_range(0, 5)), vec![0, 1, 2, 3, 4]);
    assert!(entry.get_chunks_in_range(5, 0).is_empty());
    assert!(entry.get_chunks_in_range(2, 0).is_empty());
    assert_eq!(indices(&copy_chunks(&entry.get_chunks(), 3, 5)), vec![3, 4]);
}

#[test]
fn set_chunks_replaces_the_list() {
    let mut entry = entry(3);
    entry.set_chunks(vec![chunk(9)]);
    assert_eq!(indices(&entry.get_chunks()), vec![9]);
    assert_eq!(entry.get_size(), 12288);
    assert_eq!(entry.get_name(), "notes");
}

#[test]
fn set_chunks_at_offset_replaces_and_extends() {
    let mut inside = entry(5);
    inside.set_chunks_at_offset(vec![chunk(10), chunk(11)], 1);
    assert_eq!(indices(&inside.get_chunks()), vec![0, 10, 11, 3, 4]);
    let mut over = entry(3);
    over.set_chunks_at_offset(vec![chunk(10), chunk(11), chunk(12)], 2);
    assert_eq!(indices(&over.get_chunks()), vec![0, 1, 10, 11, 12]);
    let mut at_end = entry(2);
    at_end.set_chunks_at_offset(vec![chunk(10)], 2);
    assert_eq!(indices(&at_end.get_chunks()), vec![0, 1, 10]);
    let mut past = entry(2);
    past.set_chunks_at_offset(vec![chunk(10), chunk(11)], 7);
    assert_eq!(indices(&past.get_chunks()), vec![0, 1, 10, 11]);
    let mut nothing = entry(2);
    nothing.set_chunks_at_offset(Vec::new(), 1);
    assert_eq!(indices(&nothing.get_chunks()), vec![0, 1]);
    let mut exact = entry(3);
    exact.set_chunks_at_offset(vec![chunk(10), chunk(11)], 1);
    assert_eq!(indices(&exact.get_chunks()), vec![0, 10, 11]);
}

#[test]
fn set_chunks_at_the_last_offset() {
    let mut entry = entry(2);
    entry.set_chunks_at_offset(vec![chunk(10)], usize::MAX);
    assert_eq!(indices(&entry.get_chunks()), vec![0, 1, 10]);
    entry.set_chunks_at_offset(Vec::new(), usize::MAX);
    assert_eq!(indices(&entry.get_chunks()), vec![0, 1, 10]);
}
