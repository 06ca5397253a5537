use memory_core::hashing::{compute_chunk_hash, hash_text};
use memory_core::hex::to_hex;
use sha2::{Digest, Sha256};

#[test]
fn test_compute_chunk_hash() {
    let hash1 = compute_chunk_hash("test.md", "hello world", "2026-01-01T00:00:00Z");
    let hash2 = compute_chunk_hash("test.md", "hello world", "2026-01-01T00:00:00Z");
    let hash3 = compute_chunk_hash("test.md", "different content", "2026-01-01T00:00:00Z");

    assert_eq!(hash1, hash2);
    assert_ne!(hash1, hash3);
    assert_eq!(hash1.len(), 64); // SHA-256 hex
}

#[test]
fn chunk_hash_is_sha256_of_the_joined_parts() {
    assert_eq!(
        compute_chunk_hash("test.md", "hello world", "2026-01-01T00:00:00Z"),
        "a69d8068958664670a3805003dc2a1a067e5c51729df8fbfc0938068441a5b92"
    );
    assert_eq!(
        compute_chunk_hash("notes.md", "alpha", "2026-01-01T00:00:00Z"),
        "4952ae9a9f1de8bb968299e86a3abb3c49db924de185d7a2b030301c850f733f"
    );
}

#[test]
fn chunk_hash_takes_texts_as_utf8() {
    assert_eq!(
        compute_chunk_hash("café.md", "naïve ☃", "t"),
        "9fe8c79aca3be38d8328f3fe6eb56d19f2e9206989c038307336cefe0c9036f2"
    );
}

#[test]
fn chunk_hash_agrees_with_the_digest_of_the_message() {
    let mut hasher = Sha256::new();
    hasher.update("a/b.md".as_bytes());
    hasher.update(b"|");
    hasher.update("some content\nwith lines".as_bytes());
    hasher.update(b"|");
    hasher.update("2026-03-04T05:06:07.123456789+00:00".as_bytes());
    let expected = format!("{:x}", hasher.finalize());
    assert_eq!(
        compute_chunk_hash(
            "a/b.md",
            "some content\nwith lines",
            "2026-03-04T05:06:07.123456789+00:00"
        ),
        expected
    );
}

#[test]
fn separator_keeps_parts_apart() {
    let t = "2026-01-01T00:00:00Z";
    assert_ne!(compute_chunk_hash("a", "bc", t), compute_chunk_hash("ab", "c", t));
    assert_ne!(compute_chunk_hash("a", "", t), compute_chunk_hash("", "a", t));
}

#[test]
fn chunk_hash_is_lower_case_hex() {
    let hash = compute_chunk_hash("", "", "");
    assert_eq!(hash.len(), 64);
    assert!(hash.chars().all(|c| c.is_ascii_digit() || ('a'..='f').contains(&c)));
    // The message of three empty parts is the two separators.
    assert_ne!(hash, hash_text(""));
    assert_eq!(hash, hash_text("||"));
}

#[test]
fn text_hash_matches_known_digests() {
    assert_eq!(
        hash_text("abc"),
        "ba7816bf8f01cfea414140de5dae2223b00361a396177a9cb410ff61f20015ad"
    );
    assert_eq!(
        hash_text(""),
        "e3b0c44298fc1c149afbf4c8996fb92427ae41e4649b934ca495991b7852b855"
    );
}

#[test]
fn hex_renders_two_digits_per_byte() {
    assert_eq!(to_hex(&[]), "");
    assert_eq!(to_hex(&[0x00, 0x0f, 0xa0, 0xff, 0x7c]), "000fa0ff7c");
    assert_eq!(to_hex(&[0x12, 0x34, 0x56, 0x78, 0x9a, 0xbc, 0xde]), "123456789abcde");
}
