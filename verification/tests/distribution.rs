use rand_unique::sequence_u64;
use rand_unique::sequence_u8;

#[test]
fn test_u8_full_cycle_exactly_uniform() {
    // A full cycle visits every u8 exactly once, so equal-width buckets are
    // hit exactly equally often.
    let config = sequence_u8::Config::new(0, 0);
    let mut cursor = sequence_u8::RandomSequence::new(config);
    let mut counts = [0usize; 16];
    for _ in 0..256 {
        counts[(cursor.next() / 16) as usize] += 1;
    }
    for &count in counts.iter() {
        assert_eq!(count, 16);
    }
}

#[test]
fn test_u64_distribution_approximately_uniform() {
    // Chi-squared goodness-of-fit of a 10,000-value sample against a uniform
    // distribution over 100 equal-width buckets. With 99 degrees of freedom
    // the 1% critical value is about 135: a statistic below it does not
    // reject the uniform-distribution null hypothesis.
    const BUCKETS: usize = 100;
    const SAMPLES: usize = 10_000;
    let config = sequence_u64::Config::new(0, 0);
    let mut cursor = sequence_u64::RandomSequence::new(config);

    let bucket_width: u64 = u64::MAX / BUCKETS as u64;
    let mut counts = [0usize; BUCKETS];
    for _ in 0..SAMPLES {
        let value = cursor.next();
        let mut bucket = (value / bucket_width) as usize;
        if bucket >= BUCKETS {
            bucket = BUCKETS - 1;
        }
        counts[bucket] += 1;
    }

    let expected = SAMPLES as f64 / BUCKETS as f64;
    let chi_squared: f64 = counts
        .iter()
        .map(|&observed| {
            let diff = observed as f64 - expected;
            diff * diff / expected
        })
        .sum();
    assert!(
        chi_squared < 135.0,
        "chi-squared statistic {} rejects the uniform-distribution null hypothesis",
        chi_squared
    );
}
