use file_splitter::checksum::calculate_buffer_checksum;
use file_splitter::gzip::decode_chunk;
use file_splitter::restore::{restore_buffer, RestoreError};
use file_splitter::split::split_buffer;

fn sample_data() -> Vec<u8> {
    (0u32..1000).map(|i| (i * 31 % 256) as u8).collect()
}

#[test]
fn round_trip_uncompressed() {
    let data = sample_data();
    let out = split_buffer(&data, 64, "a.bin", false);
    let outcome = restore_buffer(&out.info, &out.stored_chunks).unwrap();

    assert_eq!(outcome.data, data);
    assert!(outcome.chunk_checksum_ok.iter().all(|&ok| ok));
    assert!(outcome.file_checksum_ok);
}

#[test]
fn round_trip_compressed() {
    let data = sample_data();
    let out = split_buffer(&data, 64, "a.bin", true);
    let outcome = restore_buffer(&out.info, &out.stored_chunks).unwrap();

    assert_eq!(outcome.data, data);
    assert!(outcome.chunk_checksum_ok.iter().all(|&ok| ok));
    assert!(outcome.file_checksum_ok);
}

#[test]
fn round_trip_of_empty_data() {
    let data: Vec<u8> = Vec::new();
    for compress in [false, true] {
        let out = split_buffer(&data, 16, "e.bin", compress);
        let outcome = restore_buffer(&out.info, &out.stored_chunks).unwrap();
        assert!(outcome.data.is_empty());
        assert_eq!(outcome.chunk_checksum_ok, vec![true]);
        assert!(outcome.file_checksum_ok);
    }
}

#[test]
fn round_trip_at_an_exact_chunk_boundary() {
    let data: Vec<u8> = (0u8..96).collect();
    for compress in [false, true] {
        let out = split_buffer(&data, 32, "b.bin", compress);
        assert_eq!(out.info.chunks.len(), 3);
        let outcome = restore_buffer(&out.info, &out.stored_chunks).unwrap();
        assert_eq!(outcome.data, data);
    }
}

#[test]
fn compressed_chunks_decode_to_their_recorded_checksums() {
    let data = sample_data();
    let out = split_buffer(&data, 100, "c.bin", true);

    for (rec, stored) in out.info.chunks.iter().zip(out.stored_chunks.iter()) {
        let plain = decode_chunk(stored, true).expect("chunk must decode");
        assert_eq!(
            rec.chunk_checksum.as_deref(),
            Some(calculate_buffer_checksum(&plain).as_str())
        );
    }
}

#[test]
fn corruption_is_reported_but_not_fatal() {
    let data = sample_data();
    let mut out = split_buffer(&data, 128, "d.bin", false);
    out.stored_chunks[1][5] ^= 0xff;

    let outcome = restore_buffer(&out.info, &out.stored_chunks).unwrap();
    assert_eq!(outcome.data.len(), data.len());
    assert!(!outcome.chunk_checksum_ok[1]);
    assert!(outcome.chunk_checksum_ok[0]);
    assert!(outcome.chunk_checksum_ok[2..].iter().all(|&ok| ok));
    assert!(!outcome.file_checksum_ok);
}

#[test]
fn a_missing_recorded_checksum_raises_no_complaint() {
    let data = sample_data();
    let mut out = split_buffer(&data, 128, "n.bin", false);
    out.info.chunks[0].chunk_checksum = None;
    out.stored_chunks[0][0] ^= 0xff;

    let outcome = restore_buffer(&out.info, &out.stored_chunks).unwrap();
    assert!(outcome.chunk_checksum_ok[0]);
    assert!(!outcome.file_checksum_ok);
}

#[test]
fn a_size_mismatch_is_fatal() {
    let data = sample_data();
    let mut out = split_buffer(&data, 128, "s.bin", false);
    out.info.original_file_size += 1;

    let err = restore_buffer(&out.info, &out.stored_chunks).unwrap_err();
    assert_eq!(
        err,
        RestoreError::SizeMismatch { expected: 1001, actual: 1000 }
    );
}

#[test]
fn an_undecodable_chunk_is_fatal() {
    let data = sample_data();
    let mut out = split_buffer(&data, 128, "g.bin", true);
    out.stored_chunks[2] = vec![1, 2, 3];

    let err = restore_buffer(&out.info, &out.stored_chunks).unwrap_err();
    assert_eq!(err, RestoreError::ChunkDecode { index: 2 });
}
