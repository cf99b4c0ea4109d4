use rand_unique::sequence_u64;
use rand_unique::sequence_u8;

#[test]
fn test_determinism_u64() {
    let mut a = sequence_u64::RandomSequence::new(sequence_u64::Config::new(42, 7));
    let mut b = sequence_u64::RandomSequence::new(sequence_u64::Config::new(42, 7));
    for _ in 0..1000 {
        assert_eq!(a.next(), b.next());
    }
}

#[test]
fn test_determinism_u8() {
    let mut a = sequence_u8::RandomSequence::new(sequence_u8::Config::new(200, 13));
    let mut b = sequence_u8::RandomSequence::new(sequence_u8::Config::new(200, 13));
    for _ in 0..1000 {
        assert_eq!(a.next(), b.next());
    }
}

#[test]
fn test_random_access_consistency_u64() {
    let config = sequence_u64::Config::new(1, 2);
    let fixed = sequence_u64::RandomSequence::new(config);
    let mut stepped = sequence_u64::RandomSequence::new(config);
    for i in 0..100u64 {
        assert_eq!(fixed.n(i), stepped.next());
    }
}

#[test]
fn test_next_then_prev_u64() {
    let config = sequence_u64::Config::new(8, 15);
    let mut cursor = sequence_u64::RandomSequence::new(config);
    for _ in 0..37 {
        cursor.next();
    }
    let position = cursor.index();
    let forward = cursor.next();
    let back = cursor.prev();
    assert_eq!(back, forward);
    assert_eq!(cursor.index(), position);
}

#[test]
fn test_prev_then_next_u64() {
    let config = sequence_u64::Config::new(8, 15);
    let mut cursor = sequence_u64::RandomSequence::new(config);
    let position = cursor.index();
    let back = cursor.prev();
    let forward = cursor.next();
    assert_eq!(forward, back);
    assert_eq!(cursor.index(), position);
}

#[test]
fn test_backward_traversal_reverses_forward_u8() {
    // Stepping backward from a fresh cursor replays the whole cycle in
    // reverse order: the k-th `prev` value is the (255 - k)-th `next` value.
    let config = sequence_u8::Config::new(0, 0);
    let mut forward = sequence_u8::RandomSequence::new(config);
    let mut cycle: Vec<u8> = Vec::new();
    for _ in 0..256 {
        cycle.push(forward.next());
    }
    let mut backward = sequence_u8::RandomSequence::new(config);
    for k in 0..256usize {
        assert_eq!(backward.prev(), cycle[255 - k]);
    }
}

#[test]
fn test_index_accounting_u8() {
    let config = sequence_u8::Config::new(9, 1);
    let mut cursor = sequence_u8::RandomSequence::new(config);
    // 7 forward and 3 backward steps, interleaved: index is 4.
    for _ in 0..3 {
        cursor.next();
        cursor.prev();
        cursor.next();
    }
    cursor.next();
    assert_eq!(cursor.index(), 4);
    // 5 more backward steps push the net count below zero: it wraps.
    for _ in 0..5 {
        cursor.prev();
    }
    assert_eq!(cursor.index(), 255);
}

#[test]
fn test_index_accounting_u64() {
    let config = sequence_u64::Config::new(3, 3);
    let mut cursor = sequence_u64::RandomSequence::new(config);
    for _ in 0..3 {
        cursor.next();
    }
    for _ in 0..8 {
        cursor.prev();
    }
    // (3 - 8) mod 2^64
    assert_eq!(cursor.index(), u64::MAX - 4);
}

#[test]
fn test_index_wraps_over_full_cycle_u8() {
    let config = sequence_u8::Config::new(0, 0);
    let mut cursor = sequence_u8::RandomSequence::new(config);
    for _ in 0..256 {
        cursor.next();
    }
    assert_eq!(cursor.index(), 0);
}
