use file_splitter::checksum::{calculate_buffer_checksum, ChecksumState};

const EMPTY_DIGEST: &str = "e3b0c44298fc1c149afbf4c8996fb92427ae41e4649b934ca495991b7852b855";

#[test]
fn checksum_of_empty_buffer_is_pinned() {
    assert_eq!(calculate_buffer_checksum(&[]), EMPTY_DIGEST);
}

#[test]
fn checksum_of_abc_is_pinned() {
    assert_eq!(
        calculate_buffer_checksum(b"abc"),
        "ba7816bf8f01cfea414140de5dae2223b00361a396177a9cb410ff61f20015ad"
    );
}

#[test]
fn checksum_is_deterministic() {
    let data: Vec<u8> = (0u16..500).map(|i| (i % 251) as u8).collect();
    let first = calculate_buffer_checksum(&data);
    let second = calculate_buffer_checksum(&data);
    assert_eq!(first, second);
    assert_eq!(first.len(), 64);
}

#[test]
fn streamed_checksum_matches_buffer_checksum() {
    let data: Vec<u8> = (0u16..300).map(|i| (i * 7 % 256) as u8).collect();
    let mut state = ChecksumState::new();
    state.update(&data[..100]);
    state.update(&data[100..]);
    assert_eq!(state.finish_hex(), calculate_buffer_checksum(&data));
}

#[test]
fn streamed_checksum_of_nothing_is_the_empty_digest() {
    let state = ChecksumState::new();
    assert_eq!(state.finish_hex(), EMPTY_DIGEST);
}
