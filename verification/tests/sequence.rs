use std::collections::HashSet;

use rand_unique::sequence_u16;
use rand_unique::sequence_u32;
use rand_unique::sequence_u64;
use rand_unique::sequence_u8;

#[test]
fn test_u8_sequence() {
    let config = sequence_u8::Config::new(0, 0);
    let sequence = sequence_u8::RandomSequence::new(config);

    let mut forward = sequence_u8::RandomSequence::new(config);
    for i in 0..10u8 {
        assert_eq!(sequence.n(i), forward.next());
    }

    let mut backward = sequence_u8::RandomSequence::new(config);
    for i in 0..10u8 {
        assert_eq!(sequence.n(u8::MAX.wrapping_sub(i)), backward.prev());
    }

    let mut cursor = sequence_u8::RandomSequence::new(config);
    let mut nums: HashSet<u8> = HashSet::new();
    for _ in 0..256 {
        nums.insert(cursor.next());
    }
    assert_eq!(nums.len(), 256);
}

#[test]
fn test_u16_sequence() {
    let config = sequence_u16::Config::new(0, 0);
    let sequence = sequence_u16::RandomSequence::new(config);

    let mut forward = sequence_u16::RandomSequence::new(config);
    for i in 0..10u16 {
        assert_eq!(sequence.n(i), forward.next());
    }

    let mut backward = sequence_u16::RandomSequence::new(config);
    for i in 0..10u16 {
        assert_eq!(sequence.n(u16::MAX.wrapping_sub(i)), backward.prev());
    }

    let mut cursor = sequence_u16::RandomSequence::new(config);
    let mut nums: HashSet<u16> = HashSet::new();
    for _ in 0..65536 {
        nums.insert(cursor.next());
    }
    assert_eq!(nums.len(), 65536);
}

#[test]
fn test_u32_sequence() {
    let config = sequence_u32::Config::new(0, 0);
    let sequence = sequence_u32::RandomSequence::new(config);

    let mut forward = sequence_u32::RandomSequence::new(config);
    for i in 0..10u32 {
        assert_eq!(sequence.n(i), forward.next());
    }

    let mut backward = sequence_u32::RandomSequence::new(config);
    for i in 0..10u32 {
        assert_eq!(sequence.n(u32::MAX.wrapping_sub(i)), backward.prev());
    }

    let mut cursor = sequence_u32::RandomSequence::new(config);
    let mut nums: HashSet<u32> = HashSet::new();
    for _ in 0..100_000 {
        nums.insert(cursor.next());
    }
    assert_eq!(nums.len(), 100_000);
}

#[test]
fn test_u64_sequence() {
    let config = sequence_u64::Config::new(0, 0);
    let sequence = sequence_u64::RandomSequence::new(config);

    let mut forward = sequence_u64::RandomSequence::new(config);
    for i in 0..10u64 {
        assert_eq!(sequence.n(i), forward.next());
    }

    let mut backward = sequence_u64::RandomSequence::new(config);
    for i in 0..10u64 {
        assert_eq!(sequence.n(u64::MAX.wrapping_sub(i)), backward.prev());
    }

    let mut cursor = sequence_u64::RandomSequence::new(config);
    let mut nums: HashSet<u64> = HashSet::new();
    for _ in 0..100_000 {
        nums.insert(cursor.next());
    }
    assert_eq!(nums.len(), 100_000);
}

#[test]
fn test_u8_first_values_exact() {
    // Exact first outputs for the all-zero seed pair, fixed by the
    // deterministic parameter derivation.
    let config = sequence_u8::Config::new(0, 0);
    let mut cursor = sequence_u8::RandomSequence::new(config);
    let expected: [u8; 10] = [148, 235, 122, 4, 209, 231, 3, 131, 82, 254];
    for &want in expected.iter() {
        assert_eq!(cursor.next(), want);
    }
}

#[test]
fn test_from_config_matches_new() {
    let config = sequence_u64::Config::new(11, 17);
    let mut built = sequence_u64::RandomSequence::new(config);
    let mut converted = sequence_u64::RandomSequence::from(config);
    assert_eq!(converted.index(), 0);
    for _ in 0..32 {
        assert_eq!(built.next(), converted.next());
    }
}

#[test]
fn test_fresh_cursor_index_is_zero() {
    let config = sequence_u32::Config::new(5, 9);
    let cursor = sequence_u32::RandomSequence::new(config);
    assert_eq!(cursor.index(), 0);
}

fn is_send<T: Send>() {}
fn is_sync<T: Sync>() {}

#[test]
fn test_cursor_is_send_and_sync() {
    // Cursors move freely across threads; the index state of any one cursor
    // still needs external synchronization or per-consumer clones.
    is_send::<sequence_u8::RandomSequence>();
    is_sync::<sequence_u8::RandomSequence>();
    is_send::<sequence_u16::RandomSequence>();
    is_sync::<sequence_u16::RandomSequence>();
    is_send::<sequence_u32::RandomSequence>();
    is_sync::<sequence_u32::RandomSequence>();
    is_send::<sequence_u64::RandomSequence>();
    is_sync::<sequence_u64::RandomSequence>();
}

#[test]
fn test_cloned_cursor_steps_independently() {
    let config = sequence_u16::Config::new(3, 4);
    let mut a = sequence_u16::RandomSequence::new(config);
    let mut b = a.clone();
    let first = a.next();
    assert_eq!(a.index(), 1);
    assert_eq!(b.index(), 0);
    assert_eq!(b.next(), first);
}
