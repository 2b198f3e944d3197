use sha2::Digest;
use zimcache::hashing::{hash_bytes, hash_chunks};
use zimcache::ingest::Ingestion;
use zimcache::progress::{decimal_string, progress_event};

const EMPTY_SHA256: &str = "e3b0c44298fc1c149afbf4c8996fb92427ae41e4649b934ca495991b7852b855";
const HELLO_WORLD_SHA256: &str = "b94d27b9934d3e08a52e52d7da7dabfac484efe37a5380ee9088f7ace2efcde9";

#[test]
fn hash_of_empty_input_is_defined() {
    assert_eq!(hash_bytes(&[]), EMPTY_SHA256);
}

#[test]
fn hash_matches_reference_digest() {
    assert_eq!(hash_bytes(b"hello world"), HELLO_WORLD_SHA256);
    let expected = hex::encode(sha2::Sha256::digest(b"hello world"));
    assert_eq!(hash_bytes(b"hello world"), expected);
}

#[test]
fn hash_is_chunk_boundary_independent() {
    let whole = hash_bytes(b"hello world");
    let two = hash_chunks(&vec![b"hello".to_vec(), b" world".to_vec()]);
    let many = hash_chunks(&vec![
        b"h".to_vec(),
        b"".to_vec(),
        b"ello wor".to_vec(),
        b"ld".to_vec(),
    ]);
    assert_eq!(two, whole);
    assert_eq!(many, whole);
}

#[test]
fn hash_of_no_chunks_is_hash_of_empty() {
    assert_eq!(hash_chunks(&Vec::new()), EMPTY_SHA256);
}

#[test]
fn ingestion_progress_starts_at_zero() {
    let ing = Ingestion::begin();
    assert_eq!(ing.processed_bytes(), 0);
}

#[test]
fn ingestion_progress_is_monotonic_and_reaches_total() {
    let mut ing = Ingestion::begin();
    let chunks: Vec<Vec<u8>> = vec![b"ab".to_vec(), b"".to_vec(), b"cdefg".to_vec()];
    let mut last = ing.processed_bytes();
    let mut total = 0u64;
    for chunk in &chunks {
        ing.add_chunk(chunk);
        total += chunk.len() as u64;
        let seen = ing.processed_bytes();
        assert!(seen >= last);
        last = seen;
    }
    assert_eq!(ing.processed_bytes(), total);
    assert_eq!(ing.processed_bytes(), 7);
}

#[test]
fn ingestion_finish_agrees_with_one_shot_hash() {
    let mut ing = Ingestion::begin();
    ing.add_chunk(b"hello ");
    ing.add_chunk(b"world");
    let (hash, data) = ing.finish();
    assert_eq!(hash, HELLO_WORLD_SHA256);
    assert_eq!(data, b"hello world".to_vec());
}

#[test]
fn ingestion_add_chunks_matches_repeated_add_chunk() {
    let chunks: Vec<Vec<u8>> = vec![b"one".to_vec(), b"two".to_vec(), b"three".to_vec()];
    let mut all = Ingestion::begin();
    all.add_chunks(&chunks);
    assert_eq!(all.processed_bytes(), 11);
    let mut one = Ingestion::begin();
    for chunk in &chunks {
        one.add_chunk(chunk);
    }
    let (h1, d1) = all.finish();
    let (h2, d2) = one.finish();
    assert_eq!(h1, h2);
    assert_eq!(d1, d2);
}

#[test]
fn decimal_rendering_is_exact() {
    assert_eq!(decimal_string(0), "0");
    assert_eq!(decimal_string(7), "7");
    assert_eq!(decimal_string(10), "10");
    assert_eq!(decimal_string(409), "409");
    assert_eq!(decimal_string(1000000), "1000000");
    assert_eq!(decimal_string(u64::MAX), "18446744073709551615");
}

#[test]
fn progress_event_payload_is_exact() {
    assert_eq!(progress_event(0), "{\"processed_bytes\":0}");
    assert_eq!(progress_event(53248), "{\"processed_bytes\":53248}");
}
