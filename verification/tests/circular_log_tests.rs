//! Tests of the circular log layer: the binary layout, construction-time
//! validation, reinterpretation round trips, and the raw accessors.

use cyclic_changelog::changelog::{Entry, GenericChangelog};
use cyclic_changelog::circular_log::{CircularLog, LogError};

fn key_with(seed: u8) -> [u8; 32] {
    let mut bytes = [0u8; 32];
    bytes[0] = seed;
    bytes
}

#[test]
fn test_required_size_formula() {
    // Header of three u64 fields plus forty bytes per entry slot.
    assert_eq!(CircularLog::required_size(0), 24);
    assert_eq!(CircularLog::required_size(1), 64);
    assert_eq!(CircularLog::required_size(3), 144);
    assert_eq!(CircularLog::required_size(100), 24 + 100 * 40);
}

#[test]
fn test_initialize_size_mismatch() {
    let too_small = vec![0u8; 63];
    assert_eq!(
        CircularLog::initialize(too_small, 1).unwrap_err(),
        LogError::SizeMismatch
    );
    let too_large = vec![0u8; 65];
    assert_eq!(
        CircularLog::initialize(too_large, 1).unwrap_err(),
        LogError::SizeMismatch
    );
    let exact = vec![0u8; 64];
    assert!(CircularLog::initialize(exact, 1).is_ok());
}

#[test]
fn test_initialize_writes_header() {
    let buffer = vec![0u8; CircularLog::required_size(2) as usize];
    let log = CircularLog::initialize(buffer, 2).unwrap();
    let bytes = log.bytes();
    // capacity = 2, length = 0, next-write index = 0, little-endian.
    assert_eq!(&bytes[0..8], &[2, 0, 0, 0, 0, 0, 0, 0]);
    assert_eq!(&bytes[8..16], &[0u8; 8]);
    assert_eq!(&bytes[16..24], &[0u8; 8]);
}

#[test]
fn test_append_layout_is_bit_exact() {
    let buffer = vec![0u8; CircularLog::required_size(1) as usize];
    let mut log = CircularLog::initialize(buffer, 1).unwrap();
    let mut key = [0u8; 32];
    key[0] = 0xaa;
    key[31] = 0xbb;
    log.append(Entry::new(key, 0x0102030405060708));
    let bytes = log.bytes();
    // Header: capacity 1, length 1, next-write index wrapped back to 0.
    assert_eq!(&bytes[0..8], &[1, 0, 0, 0, 0, 0, 0, 0]);
    assert_eq!(&bytes[8..16], &[1, 0, 0, 0, 0, 0, 0, 0]);
    assert_eq!(&bytes[16..24], &[0u8; 8]);
    // Slot: the value in little-endian order, then the 32 key bytes.
    assert_eq!(&bytes[24..32], &[8, 7, 6, 5, 4, 3, 2, 1]);
    assert_eq!(&bytes[32..64], &key);
}

#[test]
fn test_reinterpret_rejects_bad_buffers() {
    // Too small for a header.
    let short = vec![0u8; 23];
    assert_eq!(
        CircularLog::reinterpret(short).unwrap_err(),
        LogError::LayoutError
    );

    // Declared capacity needs more bytes than the buffer has.
    let mut header_only = vec![0u8; 24];
    header_only[0] = 1; // capacity 1 needs 64 bytes
    assert_eq!(
        CircularLog::reinterpret(header_only).unwrap_err(),
        LogError::LayoutError
    );

    // Length exceeds capacity.
    let mut bad_length = vec![0u8; 64];
    bad_length[0] = 1;
    bad_length[8] = 2;
    assert_eq!(
        CircularLog::reinterpret(bad_length).unwrap_err(),
        LogError::LayoutError
    );

    // Next-write index inconsistent with a partially filled log.
    let mut bad_next = vec![0u8; 104];
    bad_next[0] = 2; // capacity 2
    bad_next[8] = 1; // length 1
    bad_next[16] = 0; // next-write index should be 1
    assert_eq!(
        CircularLog::reinterpret(bad_next).unwrap_err(),
        LogError::LayoutError
    );
}

#[test]
fn test_initialize_then_reinterpret_reports_empty() {
    let buffer = vec![0u8; CircularLog::required_size(4) as usize];
    let log = CircularLog::initialize(buffer, 4).unwrap();
    let persisted = log.bytes().clone();
    let revived = CircularLog::reinterpret(persisted).unwrap();
    assert_eq!(revived.len(), 0);
    assert_eq!(revived.capacity(), 4);
}

#[test]
fn test_reinterpret_is_idempotent() {
    let capacity = 3u64;
    let buffer = vec![0u8; CircularLog::required_size(capacity) as usize];
    let mut log = CircularLog::initialize(buffer, capacity).unwrap();
    for i in 0..4u64 {
        log.append(Entry::new(key_with(i as u8 + 1), 1000 + i));
    }

    let once = CircularLog::reinterpret(log.bytes().clone()).unwrap();
    let twice = CircularLog::reinterpret(once.bytes().clone()).unwrap();

    assert_eq!(once.len(), twice.len());
    assert_eq!(once.capacity(), twice.capacity());
    assert_eq!(once.bytes(), twice.bytes());
    for i in 0..once.capacity() {
        let a = once.get(i).unwrap();
        let b = twice.get(i).unwrap();
        assert_eq!(a.value, b.value);
        assert_eq!(a.mint, b.mint);
    }
}

#[test]
fn test_populated_log_survives_reinterpretation() {
    let capacity = 3u64;
    let buffer = vec![0u8; CircularLog::required_size(capacity) as usize];
    let mut changelog = GenericChangelog::new(capacity, buffer).unwrap();
    changelog.push(Entry::new(key_with(1), 100));
    changelog.push(Entry::new(key_with(2), 200));

    let persisted = changelog.entries.bytes().clone();
    let revived = GenericChangelog::from_bytes(persisted).unwrap();
    assert_eq!(revived.len(), 2);
    assert_eq!(revived.find_latest::<false>(key_with(1), None), Some(100));
    assert_eq!(revived.find_latest::<false>(key_with(2), None), Some(200));
    assert_eq!(revived.find_latest::<false>(key_with(3), None), None);
}

#[test]
fn test_get_and_last_index() {
    let capacity = 3u64;
    let buffer = vec![0u8; CircularLog::required_size(capacity) as usize];
    let mut log = CircularLog::initialize(buffer, capacity).unwrap();

    assert!(log.get(0).is_none());

    log.append(Entry::new(key_with(1), 10));
    assert_eq!(log.last_index(), 0);
    assert_eq!(log.get(0).unwrap().value, 10);
    assert!(log.get(1).is_none());

    log.append(Entry::new(key_with(2), 20));
    log.append(Entry::new(key_with(3), 30));
    assert_eq!(log.last_index(), 2);

    // A fourth append wraps: slot 0 now holds the newest entry.
    log.append(Entry::new(key_with(4), 40));
    assert_eq!(log.last_index(), 0);
    assert_eq!(log.get(0).unwrap().value, 40);
    assert_eq!(log.get(1).unwrap().value, 20);
    assert_eq!(log.get(2).unwrap().value, 30);
    assert!(log.get(3).is_none());
}

#[test]
fn test_capacity_zero_log() {
    let buffer = vec![0u8; 24];
    let log = CircularLog::initialize(buffer, 0).unwrap();
    assert_eq!(log.len(), 0);
    assert_eq!(log.capacity(), 0);
    let revived = CircularLog::reinterpret(log.bytes().clone()).unwrap();
    assert_eq!(revived.len(), 0);
}
