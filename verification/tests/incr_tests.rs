// The incremental accumulator core: rejection of invalid samples with
// the state left untouched, running count and extrema, and bulk updates
// that retain the progress made before the first invalid sample.

use incr_stats::error::StatsError;
use incr_stats::incr::Stats;

fn words(xs: &[f64]) -> Vec<u64> {
    xs.iter().map(|x| x.to_bits()).collect()
}

#[test]
fn incr_test_test_update_with_bad_data() {
    let mut d = Stats::new();
    assert_eq!(d.update(f64::NAN.to_bits()), Err(StatsError::InvalidData));
    assert_eq!(d.update(f64::INFINITY.to_bits()), Err(StatsError::InvalidData));
    assert_eq!(
        d.update(f64::NEG_INFINITY.to_bits()),
        Err(StatsError::InvalidData)
    );
}

#[test]
fn test_rejected_sample_leaves_state_unchanged() {
    let mut d = Stats::new();
    d.update((1.0f64).to_bits()).unwrap();
    d.update((2.0f64).to_bits()).unwrap();
    let count = d.count();
    let min = d.min();
    let max = d.max();
    for bad in [f64::NAN, f64::INFINITY, f64::NEG_INFINITY] {
        assert_eq!(d.update(bad.to_bits()), Err(StatsError::InvalidData));
        assert_eq!(d.count(), count);
        assert_eq!(d.min(), min);
        assert_eq!(d.max(), max);
    }
}

#[test]
fn test_empty_accumulator() {
    let d = Stats::new();
    assert_eq!(d.count(), 0);
    assert_eq!(d.min(), Err(StatsError::NotEnoughData));
    assert_eq!(d.max(), Err(StatsError::NotEnoughData));
}

#[test]
fn test_update_ascending() {
    let mut d = Stats::new();
    for v in [1.0f64, 2.0, 3.0, 4.0, 5.0] {
        d.update(v.to_bits()).unwrap();
    }
    assert_eq!(d.count(), 5);
    assert_eq!(d.min(), Ok((1.0f64).to_bits()));
    assert_eq!(d.max(), Ok((5.0f64).to_bits()));
}

#[test]
fn test_update_mixed_signs() {
    let a = [1.0f64, -2.0, 13.0, 47.0, 115.0, -0.03, -123.4, 23.0, -23.04, 12.3];
    let mut d = Stats::new();
    for v in a {
        d.update(v.to_bits()).unwrap();
    }
    assert_eq!(d.count(), 10);
    assert_eq!(f64::from_bits(d.min().unwrap()), -123.4);
    assert_eq!(f64::from_bits(d.max().unwrap()), 115.0);
}

#[test]
fn test_array_update_halves_match_whole() {
    let a = [1.0f64, -2.0, 13.0, 47.0, 115.0, -0.03, -123.4, 23.0, -23.04, 12.3];
    let w = words(&a);

    let mut halves = Stats::new();
    halves.array_update(&w[..5].to_vec()).unwrap();
    assert_eq!(halves.count(), 5);
    assert_eq!(f64::from_bits(halves.min().unwrap()), -2.0);
    assert_eq!(f64::from_bits(halves.max().unwrap()), 115.0);
    halves.array_update(&w[5..].to_vec()).unwrap();

    let mut whole = Stats::new();
    whole.array_update(&w).unwrap();

    let mut one_by_one = Stats::new();
    for v in &w {
        one_by_one.update(*v).unwrap();
    }

    for d in [&halves, &whole, &one_by_one] {
        assert_eq!(d.count(), 10);
        assert_eq!(f64::from_bits(d.min().unwrap()), -123.4);
        assert_eq!(f64::from_bits(d.max().unwrap()), 115.0);
    }
}

#[test]
fn test_array_update_keeps_valid_prefix() {
    let mut d = Stats::new();
    let w = vec![
        (1.0f64).to_bits(),
        (5.0f64).to_bits(),
        f64::NAN.to_bits(),
        (2.0f64).to_bits(),
    ];
    assert_eq!(d.array_update(&w), Err(StatsError::InvalidData));
    assert_eq!(d.count(), 2);
    assert_eq!(d.min(), Ok((1.0f64).to_bits()));
    assert_eq!(d.max(), Ok((5.0f64).to_bits()));
}

#[test]
fn test_array_update_empty() {
    let mut d = Stats::new();
    assert_eq!(d.array_update(&vec![]), Ok(()));
    assert_eq!(d.count(), 0);
    assert_eq!(d.min(), Err(StatsError::NotEnoughData));
}
