// The batch validation and order statistics over sample encodings.

use incr_stats::batch;
use incr_stats::error::StatsError;

fn words(xs: &[f64]) -> Vec<u64> {
    xs.iter().map(|x| x.to_bits()).collect()
}

#[test]
fn test_batch_validate() {
    assert_eq!(batch::validate(&words(&[])), Ok(()));
    assert_eq!(batch::validate(&words(&[0.1])), Ok(()));
    assert_eq!(
        batch::validate(&words(&[f64::NAN])),
        Err(StatsError::InvalidData)
    );
    assert_eq!(
        batch::validate(&words(&[f64::INFINITY])),
        Err(StatsError::InvalidData)
    );
    assert_eq!(
        batch::validate(&words(&[f64::NEG_INFINITY])),
        Err(StatsError::InvalidData)
    );
    assert_eq!(
        batch::validate(&words(&[0.0, f64::NAN])),
        Err(StatsError::InvalidData)
    );
    assert_eq!(
        batch::validate(&words(&[0.0, f64::INFINITY])),
        Err(StatsError::InvalidData)
    );
    assert_eq!(
        batch::validate(&words(&[0.0, f64::NEG_INFINITY])),
        Err(StatsError::InvalidData)
    );
}

#[test]
fn test_batch_count() {
    assert_eq!(batch::count(&words(&[])), 0);
    assert_eq!(batch::count(&words(&[1.0, 2.0, 3.0])), 3);
}

#[test]
fn test_batch_min_max_empty() {
    let empty = words(&[]);
    assert_eq!(batch::min(&empty), Err(StatsError::NotEnoughData));
    assert_eq!(batch::max(&empty), Err(StatsError::NotEnoughData));
}

#[test]
fn test_batch_min_max_values() {
    let a = words(&[1.0, -2.0, 13.0, 47.0, 115.0, -0.03, -123.4, 23.0, -23.04, 12.3]);
    assert_eq!(f64::from_bits(batch::min(&a).unwrap()), -123.4);
    assert_eq!(f64::from_bits(batch::max(&a).unwrap()), 115.0);

    let one = words(&[2.3]);
    assert_eq!(f64::from_bits(batch::min(&one).unwrap()), 2.3);
    assert_eq!(f64::from_bits(batch::max(&one).unwrap()), 2.3);

    let constant = words(&[7.5; 6]);
    assert_eq!(f64::from_bits(batch::min(&constant).unwrap()), 7.5);
    assert_eq!(f64::from_bits(batch::max(&constant).unwrap()), 7.5);
}

#[test]
fn test_batch_min_max_agree_with_incremental() {
    let xs = [1.0, -2.0, 13.0, 47.0, 115.0, -0.03, -123.4, 23.0, -23.04, 12.3];
    let a = words(&xs);
    let mut d = incr_stats::incr::Stats::new();
    for w in &a {
        d.update(*w).unwrap();
    }
    assert_eq!(batch::min(&a), d.min());
    assert_eq!(batch::max(&a), d.max());
    assert_eq!(batch::count(&a), d.count());
}
