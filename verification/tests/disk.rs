use workingdb::storage::disk::{
    check_transfer, ensure_alignment, plan_write, AlignError, WritePlan, DEFAULT_BLOCK_SIZE,
};

#[test]
fn disk_buffers_are_held_against_the_block_size() {
    assert_eq!(DEFAULT_BLOCK_SIZE, 4096);
    assert_eq!(ensure_alignment(0, 0, 4096), Ok(()));
    assert_eq!(ensure_alignment(8192, 4096, 4096), Ok(()));
    assert_eq!(ensure_alignment(8193, 4096, 4096), Err(AlignError::Buffer));
    assert_eq!(ensure_alignment(8192, 4095, 4096), Err(AlignError::Size));
    // The address is looked at first.
    assert_eq!(ensure_alignment(1, 1, 4096), Err(AlignError::Buffer));
}

#[test]
fn disk_transfers_are_held_against_the_block_size() {
    assert_eq!(check_transfer(4096, 8192, 12288, 4096), Ok(()));
    assert_eq!(check_transfer(4096, 8192, 12289, 4096), Err(AlignError::Offset));
    assert_eq!(check_transfer(4096, 100, 12289, 4096), Err(AlignError::Size));
    assert_eq!(check_transfer(5, 100, 12289, 4096), Err(AlignError::Buffer));
    assert_eq!(check_transfer(7, 7, 7, 1), Ok(()));
}

#[test]
fn disk_refusals_in_words() {
    assert_eq!(AlignError::Buffer.message(), "Buffer must be aligned to block size");
    assert_eq!(AlignError::Size.message(), "Buffer size must be a multiple of block size");
    assert_eq!(AlignError::Offset.message(), "Offset must be block-aligned");
}

#[test]
fn disk_writes_are_brought_to_whole_blocks() {
    assert_eq!(
        plan_write(0, 10, 4096),
        Some(WritePlan { aligned_offset: 0, offset_within_block: 0, buffer_len: 4096, read_first: false })
    );
    assert_eq!(
        plan_write(4096, 4096, 4096),
        Some(WritePlan { aligned_offset: 4096, offset_within_block: 0, buffer_len: 4096, read_first: false })
    );
    assert_eq!(
        plan_write(5000, 4000, 4096),
        Some(WritePlan { aligned_offset: 4096, offset_within_block: 904, buffer_len: 8192, read_first: true })
    );
    assert_eq!(
        plan_write(4095, 1, 4096),
        Some(WritePlan { aligned_offset: 0, offset_within_block: 4095, buffer_len: 4096, read_first: true })
    );
    assert_eq!(
        plan_write(4095, 2, 4096),
        Some(WritePlan { aligned_offset: 0, offset_within_block: 4095, buffer_len: 8192, read_first: true })
    );
    // Nothing to write takes no block.
    assert_eq!(
        plan_write(8192, 0, 4096),
        Some(WritePlan { aligned_offset: 8192, offset_within_block: 0, buffer_len: 0, read_first: false })
    );
    assert_eq!(plan_write(1, usize::MAX, 4096), None);
}
