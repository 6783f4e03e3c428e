use filters::bloom::{BloomFilter, FilterError};
use filters::hashing::seeded_hash;
use rand::distributions::{Distribution, Uniform};
use std::collections::HashSet;
use std::iter::FromIterator;

#[test]
fn test_bloom_filter_parameters() {
    let bloom = BloomFilter::new(0.1f64.to_bits(), 100).unwrap();
    assert_eq!(bloom.n_hashes(), 4);
    assert_eq!(bloom.n_bits(), 5760);
}

#[test]
fn test_bloom_filter_accuracy() {
    let between = Uniform::new(0, 10000000);
    let mut rng = rand::thread_rng();

    let n_inputs: u64 = 100000;

    let inputs: HashSet<u64> =
        HashSet::from_iter((0..n_inputs).map(|_n| between.sample(&mut rng)));

    let mut bloom = BloomFilter::new(0.1f64.to_bits(), n_inputs).unwrap();
    inputs.iter().for_each(|n| bloom.put(n));

    assert!(inputs.iter().all(|n| bloom.contains(n)));

    let false_inputs: Vec<u64> = (0..n_inputs)
        .map(|_n| between.sample(&mut rng))
        .filter(|n| !inputs.contains(n))
        .collect();
    let false_error_rate: f64 = (false_inputs.iter().map(|n| bloom.contains(n) as u16).sum::<u16>()
        as f64) / false_inputs.len() as f64;

    assert!(false_error_rate < 0.1_f64);
}

#[test]
fn test_end_to_end_scenario() {
    let mut f = BloomFilter::new(0.1f64.to_bits(), 100).unwrap();
    f.put(&'a');
    f.put(&'b');
    f.put(&'c');
    assert_eq!(f.contains(&'a'), true);
    assert_eq!(f.contains(&'b'), true);
    assert_eq!(f.contains(&'c'), true);
    // 'z' was never inserted: the answer may be true or false, so it is not asserted
    let _ = f.contains(&'z');
}

#[test]
fn test_empty_filter_contains_nothing() {
    let f = BloomFilter::new(0.1f64.to_bits(), 100).unwrap();
    assert!(!f.contains(&'a'));
    for v in 0u64..1000 {
        assert!(!f.contains(&v));
    }
}

#[test]
fn test_no_false_negatives_many_values() {
    let mut f = BloomFilter::new(0.1f64.to_bits(), 1000).unwrap();
    for v in 0u64..1000 {
        f.put(&v);
    }
    for v in 0u64..1000 {
        assert!(f.contains(&v));
    }
}

#[test]
fn test_put_twice_changes_nothing() {
    let mut f = BloomFilter::new(0.1f64.to_bits(), 100).unwrap();
    f.put(&7u64);
    let positions = f.get_bits(&7u64);
    let before: Vec<bool> = (0u64..2000).map(|v| f.contains(&v)).collect();
    f.put(&7u64);
    let after: Vec<bool> = (0u64..2000).map(|v| f.contains(&v)).collect();
    assert_eq!(before, after);
    assert_eq!(f.get_bits(&7u64), positions);
    assert!(f.contains(&7u64));
}

#[test]
fn test_get_bits_deterministic() {
    let f = BloomFilter::new(0.01f64.to_bits(), 50).unwrap();
    let a = f.get_bits(&42u64);
    let b = f.get_bits(&42u64);
    assert_eq!(a, b);
    assert_eq!(a.len(), f.n_hashes() as usize);
    for p in &a {
        assert!(*p < f.n_bits());
    }
}

#[test]
fn test_parameter_derivation_more_rates() {
    let f = BloomFilter::new(0.5f64.to_bits(), 10).unwrap();
    assert_eq!(f.n_hashes(), 1);
    assert_eq!(f.n_bits(), 144);
    let g = BloomFilter::new(0.25f64.to_bits(), 10).unwrap();
    assert_eq!(g.n_hashes(), 2);
    assert_eq!(g.n_bits(), 288);
    let h = BloomFilter::new(0.01f64.to_bits(), 50).unwrap();
    assert_eq!(h.n_hashes(), 7);
    assert_eq!(h.n_bits(), 5040);
}

#[test]
fn test_subnormal_rate_hash_count() {
    // the least positive binary64 value, 2 to the power of -1074
    let tiny = f64::from_bits(1);
    let f = BloomFilter::new(tiny.to_bits(), 1).unwrap();
    assert_eq!(f.n_hashes(), 1074);
    assert_eq!(f.n_bits(), 15465);
    // three times that value still needs 1073 hash functions
    let g = BloomFilter::new(f64::from_bits(3).to_bits(), 1).unwrap();
    assert_eq!(g.n_hashes(), 1073);
}

#[test]
fn test_invalid_rate_rejected() {
    let n: u64 = 100;
    assert!(matches!(
        BloomFilter::new(0.0f64.to_bits(), n),
        Err(FilterError::InvalidArgument)
    ));
    assert!(matches!(
        BloomFilter::new((-0.0f64).to_bits(), n),
        Err(FilterError::InvalidArgument)
    ));
    assert!(matches!(
        BloomFilter::new(1.0f64.to_bits(), n),
        Err(FilterError::InvalidArgument)
    ));
    assert!(matches!(
        BloomFilter::new(1.5f64.to_bits(), n),
        Err(FilterError::InvalidArgument)
    ));
    assert!(matches!(
        BloomFilter::new((-0.1f64).to_bits(), n),
        Err(FilterError::InvalidArgument)
    ));
    assert!(matches!(
        BloomFilter::new(f64::NAN.to_bits(), n),
        Err(FilterError::InvalidArgument)
    ));
    assert!(matches!(
        BloomFilter::new(f64::INFINITY.to_bits(), n),
        Err(FilterError::InvalidArgument)
    ));
}

#[test]
fn test_seeded_hash_stable() {
    assert_eq!(seeded_hash(1, 2), seeded_hash(1, 2));
    assert_ne!(seeded_hash(1, 2), seeded_hash(2, 2));
    assert_ne!(seeded_hash(1, 2), seeded_hash(1, 3));
}
