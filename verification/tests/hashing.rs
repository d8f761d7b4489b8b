use std::hash::Hasher;

use librecard::hasher::{hash_bytes, FileHasher};
use twox_hash::XxHash3_64;

#[test]
fn hash_matches_oneshot() {
    for input in [&b""[..], b"hello", b"The quick brown fox jumps over the lazy dog"] {
        assert_eq!(hash_bytes(input), XxHash3_64::oneshot(input));
    }
}

#[test]
fn hash_matches_streaming_reference() {
    let input = b"some file contents, long enough to split";
    let mut reference = XxHash3_64::new();
    reference.write(input);
    assert_eq!(hash_bytes(input), reference.finish());
}

#[test]
fn streaming_chunks_match_whole() {
    let input = b"hello world, hashed in pieces";
    let mut h = FileHasher::new();
    h.update(&input[..5]);
    h.update(&input[5..12]);
    h.update(&input[12..]);
    assert_eq!(h.finalize(), hash_bytes(input));
}

#[test]
fn hash_depends_on_content() {
    assert_ne!(hash_bytes(b"hello"), hash_bytes(b"olleh"));
    assert_ne!(hash_bytes(b"hello"), hash_bytes(b"hello "));
    assert_eq!(hash_bytes(b"hello"), hash_bytes(b"hello"));
}
