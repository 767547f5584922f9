use file_splitter::checksum::calculate_buffer_checksum;
use file_splitter::split::{build_split_info, split_buffer, SplitError};

#[test]
fn split_counts_and_names_chunks() {
    let data: Vec<u8> = (1u8..=10).collect();
    let out = split_buffer(&data, 4, "data.bin", false);

    assert_eq!(out.info.original_filename, "data.bin");
    assert_eq!(out.info.original_file_size, 10);
    assert_eq!(out.info.chunk_limit, 4);
    assert_eq!(out.info.chunks_sub_dir, "data.bin_parts");
    assert!(!out.info.is_compressed);
    assert_eq!(out.info.chunks.len(), 3);
    assert_eq!(out.stored_chunks.len(), 3);

    assert_eq!(out.info.chunks[0].chunk_filename, "data.bin-001");
    assert_eq!(out.info.chunks[1].chunk_filename, "data.bin-002");
    assert_eq!(out.info.chunks[2].chunk_filename, "data.bin-003");

    assert_eq!(out.info.chunks[0].chunk_size, 4);
    assert_eq!(out.info.chunks[1].chunk_size, 4);
    assert_eq!(out.info.chunks[2].chunk_size, 2);

    assert_eq!(out.stored_chunks[0], vec![1, 2, 3, 4]);
    assert_eq!(out.stored_chunks[1], vec![5, 6, 7, 8]);
    assert_eq!(out.stored_chunks[2], vec![9, 10]);

    for (rec, stored) in out.info.chunks.iter().zip(out.stored_chunks.iter()) {
        assert_eq!(
            rec.chunk_checksum.as_deref(),
            Some(calculate_buffer_checksum(stored).as_str())
        );
    }
    assert_eq!(out.info.original_checksum, calculate_buffer_checksum(&data));
}

#[test]
fn split_of_empty_data_emits_one_empty_chunk() {
    let data: Vec<u8> = Vec::new();
    let out = split_buffer(&data, 8, "empty.txt", false);

    assert_eq!(out.info.original_file_size, 0);
    assert_eq!(out.info.chunks.len(), 1);
    assert_eq!(out.info.chunks[0].chunk_filename, "empty.txt-001");
    assert_eq!(out.info.chunks[0].chunk_size, 0);
    assert_eq!(
        out.info.chunks[0].chunk_checksum.as_deref(),
        Some("e3b0c44298fc1c149afbf4c8996fb92427ae41e4649b934ca495991b7852b855")
    );
    assert_eq!(out.stored_chunks[0], Vec::<u8>::new());
}

#[test]
fn exact_multiple_has_no_trailing_empty_chunk() {
    let data: Vec<u8> = (0u8..8).collect();
    let out = split_buffer(&data, 4, "even.bin", false);

    assert_eq!(out.info.chunks.len(), 2);
    assert_eq!(out.info.chunks[1].chunk_size, 4);
    assert_eq!(out.stored_chunks[1], vec![4, 5, 6, 7]);
}

#[test]
fn chunk_numbering_is_padded_but_never_truncated() {
    let data: Vec<u8> = vec![0u8; 1000];
    let out = split_buffer(&data, 1, "f", false);

    assert_eq!(out.info.chunks.len(), 1000);
    assert_eq!(out.info.chunks[0].chunk_filename, "f-001");
    assert_eq!(out.info.chunks[9].chunk_filename, "f-010");
    assert_eq!(out.info.chunks[99].chunk_filename, "f-100");
    assert_eq!(out.info.chunks[998].chunk_filename, "f-999");
    assert_eq!(out.info.chunks[999].chunk_filename, "f-1000");
}

#[test]
fn compressed_split_records_stored_sizes() {
    let data: Vec<u8> = vec![7u8; 64];
    let out = split_buffer(&data, 32, "c.bin", true);

    assert!(out.info.is_compressed);
    assert_eq!(out.info.chunks.len(), 2);
    for (rec, stored) in out.info.chunks.iter().zip(out.stored_chunks.iter()) {
        assert_eq!(rec.chunk_size, stored.len() as u64);
        assert!(!stored.is_empty());
    }
}

#[test]
fn manifest_builder_rejects_a_size_mismatch() {
    let r = build_split_info("x.bin", 10, 4, Vec::new(), String::new(), false, 9);
    assert_eq!(
        r.unwrap_err(),
        SplitError::SizeMismatch { expected: 10, actual: 9 }
    );
}
