// The cached engine core: construction-time validation and memoized
// extrema.

use incr_stats::cached::Stats;
use incr_stats::error::StatsError;

fn words(xs: &[f64]) -> Vec<u64> {
    xs.iter().map(|x| x.to_bits()).collect()
}

#[test]
fn vec_test_test_update_with_bad_data() {
    assert!(matches!(
        Stats::new(words(&[f64::NAN])),
        Err(StatsError::InvalidData)
    ));
    assert!(matches!(
        Stats::new(words(&[f64::INFINITY])),
        Err(StatsError::InvalidData)
    ));
    assert!(matches!(
        Stats::new(words(&[f64::NEG_INFINITY])),
        Err(StatsError::InvalidData)
    ));
    assert!(matches!(
        Stats::new(words(&[0.0, f64::NAN])),
        Err(StatsError::InvalidData)
    ));
    assert!(matches!(
        Stats::new(words(&[0.0, f64::INFINITY])),
        Err(StatsError::InvalidData)
    ));
    assert!(matches!(
        Stats::new(words(&[0.0, f64::NEG_INFINITY])),
        Err(StatsError::InvalidData)
    ));
}

#[test]
fn test_cached_empty() {
    let mut d = Stats::new(words(&[])).unwrap();
    assert_eq!(d.count(), 0);
    assert_eq!(d.min(), Err(StatsError::NotEnoughData));
    assert_eq!(d.max(), Err(StatsError::NotEnoughData));
}

#[test]
fn test_cached_min_max_memoized() {
    let mut d = Stats::new(words(&[1.0, -2.0, 13.0, 47.0, 115.0, -0.03])).unwrap();
    assert_eq!(d.count(), 6);
    let first_min = d.min().unwrap();
    let first_max = d.max().unwrap();
    assert_eq!(f64::from_bits(first_min), -2.0);
    assert_eq!(f64::from_bits(first_max), 115.0);
    // The second query replays the memo cell.
    assert_eq!(d.min().unwrap(), first_min);
    assert_eq!(d.max().unwrap(), first_max);
}

#[test]
fn test_cached_agrees_with_batch_and_incremental() {
    let xs = [1.0, -2.0, 13.0, 47.0, 115.0, -0.03, -123.4, 23.0, -23.04, 12.3];
    let a = words(&xs);
    let mut cached = Stats::new(a.clone()).unwrap();
    let mut incr = incr_stats::incr::Stats::new();
    for w in &a {
        incr.update(*w).unwrap();
    }
    assert_eq!(cached.min(), incr_stats::batch::min(&a));
    assert_eq!(cached.max(), incr_stats::batch::max(&a));
    assert_eq!(cached.min(), incr.min());
    assert_eq!(cached.max(), incr.max());
}
