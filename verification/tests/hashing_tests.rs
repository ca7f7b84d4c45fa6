use blinker_core::hashing::{file_hash, ContentHasher, CHUNK_SIZE};

#[test]
fn chunks_are_64_kib() {
    assert_eq!(CHUNK_SIZE, 64 * 1024);
}

#[test]
fn the_empty_file_has_the_known_digest() {
    assert_eq!(
        file_hash(&[]),
        "af1349b9f5f9a1a6a0404dea36dcc9499bcb25c9adc112b7cc9a93cae41f3262"
    );
}

#[test]
fn digests_are_64_hex_digits() {
    let h = file_hash(b"hello world");
    assert_eq!(h.len(), 64);
    assert!(h.chars().all(|c| c.is_ascii_digit() || ('a'..='f').contains(&c)));
    assert_eq!(h, blake3::hash(b"hello world").to_hex().to_string());
}

#[test]
fn different_bytes_have_different_digests() {
    assert_ne!(file_hash(b"a"), file_hash(b"b"));
    assert_ne!(file_hash(b"a"), file_hash(b"a\n"));
    assert_eq!(file_hash(b"same"), file_hash(b"same"));
}

#[test]
fn chunking_does_not_change_the_digest() {
    let data: Vec<u8> = (0..200_000).map(|i| (i % 251) as u8).collect();
    let whole = blake3::hash(&data).to_hex().to_string();
    assert_eq!(file_hash(&data), whole);
    let exact: Vec<u8> = vec![7; 2 * 65536];
    assert_eq!(file_hash(&exact), blake3::hash(&exact).to_hex().to_string());
    let mut h = ContentHasher::new();
    for part in data.chunks(777) {
        h.update(part);
    }
    assert_eq!(h.finish(), whole);
    h.update(b"more");
    assert_ne!(h.finish(), whole);
}
