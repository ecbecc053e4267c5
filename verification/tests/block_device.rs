use kvfs::block_device::{zero_bytes, Block, BlockDevice, BlockError};

#[test]
fn new_block_has_no_data() {
    let block = Block::new(3, [7u8; 32]);
    assert_eq!(block.index, 3);
    assert_eq!(block.hash, [7u8; 32]);
    assert!(block.get_data().is_empty());
}

#[test]
fn new_block_of_default_size_is_zeroed() {
    let block = Block::new_block(9);
    assert_eq!(block.index, 9);
    assert_eq!(block.hash, [0u8; 32]);
    assert_eq!(block.get_data(), vec![0u8; 4096]);
}

#[test]
fn block_accepts_data_of_its_length_only() {
    let mut block = Block::new_block(0);
    assert_eq!(block.write_data(&[1u8; 4096]), Ok(()));
    assert_eq!(block.get_data(), vec![0u8; 4096]);
    assert_eq!(block.write_data(&[1u8; 4095]), Err(BlockError::SizeMismatch));
    assert_eq!(block.write_data(&[]), Err(BlockError::SizeMismatch));
    let mut empty = Block::new(0, [0u8; 32]);
    assert_eq!(empty.write_data(&[]), Ok(()));
    assert_eq!(empty.write_data(&[1]), Err(BlockError::SizeMismatch));
}

#[test]
fn block_reads_its_whole_length_only() {
    let block = Block::new_block(0);
    assert_eq!(block.read_data(4096), Ok(vec![0u8; 4096]));
    assert_eq!(block.read_data(4095), Err(BlockError::SizeMismatch));
    assert_eq!(block.read_data(0), Err(BlockError::SizeMismatch));
    assert_eq!(Block::new(1, [0u8; 32]).read_data(0), Ok(Vec::new()));
}

#[test]
fn block_text() {
    let mut hash = [0u8; 32];
    hash[0] = 255;
    hash[31] = 16;
    let zeros = vec!["0"; 30].join(", ");
    assert_eq!(
        Block::new(12, hash).to_string(),
        format!("Block {{ index: 12, hash: [ff, {}, 10], actual_size_bytes: 0 }}", zeros)
    );
    let all = vec!["0"; 32].join(", ");
    assert_eq!(
        Block::new_block(1).to_string(),
        format!("Block {{ index: 1, hash: [{}], actual_size_bytes: 4096 }}", all)
    );
}

#[test]
fn zero_bytes_are_zero() {
    assert_eq!(zero_bytes(0), Vec::<u8>::new());
    assert_eq!(zero_bytes(5), vec![0u8; 5]);
}

#[test]
fn new_device() {
    let device = BlockDevice::new(77, 1 << 20);
    assert_eq!(device.id, 77);
    assert_eq!(device.logical_size_bytes, 1 << 20);
    assert_eq!(device.block_size_bytes, 4096);
    assert_eq!(device.generation, 1);
    assert!(device.blocks.is_empty());
    assert!(!device.block_exists(0));
}

#[test]
fn bytes_are_located_in_blocks() {
    let device = BlockDevice::new(1, 10000);
    assert_eq!(device.translate_byte_to_block_index(0), Some((0, 0)));
    assert_eq!(device.translate_byte_to_block_index(4095), Some((0, 4095)));
    assert_eq!(device.translate_byte_to_block_index(4096), Some((1, 0)));
    assert_eq!(device.translate_byte_to_block_index(9999), Some((2, 1807)));
    assert_eq!(device.translate_byte_to_block_index(10000), None);
    assert_eq!(device.translate_byte_to_block_index(u64::MAX), None);
}

#[test]
fn spans_touch_consecutive_blocks() {
    let device = BlockDevice::new(1, 1 << 20);
    assert_eq!(device.translate_span_to_block_indices(0, 0), Some(vec![]));
    assert_eq!(device.translate_span_to_block_indices(0, 1), Some(vec![0]));
    assert_eq!(device.translate_span_to_block_indices(0, 4096), Some(vec![0]));
    assert_eq!(device.translate_span_to_block_indices(0, 4097), Some(vec![0, 1]));
    assert_eq!(device.translate_span_to_block_indices(4095, 2), Some(vec![0, 1]));
    assert_eq!(device.translate_span_to_block_indices(5000, 10000), Some(vec![1, 2, 3]));
    assert_eq!(device.translate_span_to_block_indices(8192, 4096), Some(vec![2]));
}

#[test]
fn spans_past_the_end() {
    let device = BlockDevice::new(1, 10000);
    assert_eq!(device.translate_span_to_block_indices(10000, 0), None);
    assert_eq!(device.translate_span_to_block_indices(10000, 1), None);
    assert_eq!(device.translate_span_to_block_indices(9000, 5000), None);
    assert_eq!(device.translate_span_to_block_indices(9000, 1000), Some(vec![2]));
    assert_eq!(device.translate_span_to_block_indices(9000, 3288), Some(vec![2]));
    assert_eq!(device.translate_span_to_block_indices(9000, 3289), None);
    assert_eq!(device.translate_span_to_block_indices(0, 20000), None);
    let last = BlockDevice::new(1, u64::MAX);
    assert_eq!(
        last.translate_span_to_block_indices(u64::MAX - 1, 1),
        Some(vec![(u64::MAX - 1) / 4096])
    );
    assert_eq!(last.translate_span_to_block_indices(u64::MAX - 1, 4096), None);
}

#[test]
fn spans_with_other_block_sizes() {
    let mut device = BlockDevice::new(1, 100);
    device.block_size_bytes = 10;
    assert_eq!(device.translate_byte_to_block_index(37), Some((3, 7)));
    assert_eq!(device.translate_span_to_block_indices(37, 25), Some(vec![3, 4, 5, 6]));
    assert_eq!(device.translate_span_to_block_indices(95, 5), Some(vec![9]));
    assert_eq!(device.translate_span_to_block_indices(95, 6), None);
}

#[test]
fn reads_return_zeros() {
    let device = BlockDevice::new(1, 1 << 20);
    assert_eq!(device.read(0, 0), Ok(Vec::new()));
    assert_eq!(device.read(0, 10), Ok(vec![0u8; 10]));
    assert_eq!(device.read(4000, 10000), Ok(vec![0u8; 10000]));
    assert_eq!(device.read(1 << 20, 1), Err(BlockError::OutOfBounds));
    assert_eq!(device.read((1 << 20) - 1, 4097), Err(BlockError::OutOfBounds));
}

#[test]
fn writes_of_whole_blocks_create_them() {
    let mut device = BlockDevice::new(1, 1 << 20);
    assert_eq!(device.write(4096, &[1u8; 8192]), Ok(()));
    assert!(!device.block_exists(0));
    assert!(device.block_exists(1));
    assert!(device.block_exists(2));
    assert!(!device.block_exists(3));
    assert_eq!(device.blocks[&1], Block::new_block(1));
    assert_eq!(device.blocks[&2].index, 2);
    assert_eq!(device.read(4096, 8192), Ok(vec![0u8; 8192]));
    assert_eq!(device.write(0, &[]), Ok(()));
    assert!(!device.block_exists(0));
    assert_eq!(device.generation, 1);
}

#[test]
fn writes_of_partial_blocks_are_refused() {
    let mut device = BlockDevice::new(1, 1 << 20);
    assert_eq!(device.write(0, &[1u8; 10]), Err(BlockError::SizeMismatch));
    assert!(device.block_exists(0));
    assert_eq!(device.write(4096, &[1u8; 4097]), Err(BlockError::SizeMismatch));
    assert!(device.block_exists(1));
    assert!(device.block_exists(2));
    assert_eq!(device.write(100, &[1u8; 4096]), Err(BlockError::SizeMismatch));
    assert!(!device.block_exists(3));
}

#[test]
fn writes_past_the_end_are_refused() {
    let mut device = BlockDevice::new(1, 8192);
    assert_eq!(device.write(8192, &[1u8; 4096]), Err(BlockError::OutOfBounds));
    assert_eq!(device.write(4096, &[1u8; 8192]), Err(BlockError::OutOfBounds));
    assert!(device.blocks.is_empty());
    assert_eq!(device.write(4096, &[1u8; 4096]), Ok(()));
}

#[test]
fn blocks_of_another_length_are_not_read() {
    let mut device = BlockDevice::new(1, 1 << 20);
    device.blocks.insert(1, Block::new(1, [0u8; 32]));
    assert_eq!(device.read(0, 4096), Ok(vec![0u8; 4096]));
    assert_eq!(device.read(0, 4097), Err(BlockError::SizeMismatch));
    assert_eq!(device.read(5000, 1), Err(BlockError::SizeMismatch));
    assert_eq!(device.write(4096, &[]), Ok(()));
    assert_eq!(device.write(4096, &[1u8; 4096]), Err(BlockError::SizeMismatch));
}

#[test]
fn past_the_end_a_device_answers_before_it_looks_at_its_blocks() {
    let mut device = BlockDevice::new(1, 100);
    device.block_size_bytes = 0;
    assert_eq!(device.translate_byte_to_block_index(100), None);
    assert_eq!(device.translate_byte_to_block_index(u64::MAX), None);
    assert_eq!(device.translate_span_to_block_indices(100, 0), None);
    assert_eq!(device.translate_span_to_block_indices(500, 8), None);
    assert_eq!(device.read(100, 4), Err(BlockError::OutOfBounds));
    assert_eq!(device.read(100, 0), Err(BlockError::OutOfBounds));
    assert_eq!(device.write(100, &[1, 2]), Err(BlockError::OutOfBounds));
    assert_eq!(device.write(u64::MAX, &[]), Err(BlockError::OutOfBounds));
    assert!(device.blocks.is_empty());
}
