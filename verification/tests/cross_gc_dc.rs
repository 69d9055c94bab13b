use trader_bot::cross_gc_dc::{dc, gc};

#[test]
fn test_gc() {
    //short moving average
    let low = (1, 3);
    //long moving average
    let high = (2, 2);
    assert!(gc(high, low).unwrap());

    let low = (2, 1);
    let high = (1, 2);
    assert!(!gc(high, low).unwrap());
}

#[test]
fn test_dc() {
    let low = (2, 1);
    let high = (1, 2);
    assert!(dc(high, low).unwrap());
}

#[test]
fn test_no_signal_on_flat_or_non_crossing_series() {
    // equal series: neither signal fires
    assert!(gc((2, 2), (2, 2)).is_none());
    assert!(dc((2, 2), (2, 2)).is_none());
    // short stays above long without crossing
    assert!(gc((1, 1), (3, 3)).is_none());
    assert!(dc((1, 1), (3, 3)).is_none());
    // short stays below long without crossing
    assert!(gc((5, 5), (2, 2)).is_none());
    assert!(dc((5, 5), (2, 2)).is_none());
}
