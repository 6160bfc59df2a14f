use serum_twap::{smooth_candles, OHLC};

#[test]
fn interpolate_between_two_neighbors() {
    let a = OHLC::from_prices(10, 12, 8, 10);
    let b = OHLC::from_prices(20, 22, 18, 20);
    let out = smooth_candles(&vec![a, OHLC::new(), b]);
    assert_eq!(out, vec![a, OHLC::from_prices(15, 17, 13, 15), b]);
}

#[test]
fn interpolate_method() {
    let a = OHLC::from_prices(10, 12, 8, 10);
    let b = OHLC::from_prices(20, 22, 18, 20);
    assert_eq!(a.interpolate(b), OHLC::from_prices(15, 17, 13, 15));
    assert_eq!(a.interpolate(OHLC::new()), OHLC::new());
    assert_eq!(OHLC::new().interpolate(b), OHLC::new());
}

#[test]
fn interpolate_rounds_down_to_a_tick() {
    let a = OHLC::from_prices(1, 2, 3, 4);
    let b = OHLC::from_prices(2, 2, 4, u64::MAX);
    assert_eq!(a.interpolate(b), OHLC::from_prices(1, 2, 3, u64::MAX / 2 + 2));
}

#[test]
fn single_neighbor_is_copied() {
    let a = OHLC::from_prices(10, 12, 8, 10);
    let b = OHLC::from_prices(20, 22, 18, 20);
    let out = smooth_candles(&vec![a, OHLC::new(), OHLC::new(), b]);
    assert_eq!(out, vec![a, a, b, b]);
}

#[test]
fn edge_buckets_use_their_one_neighbor() {
    let a = OHLC::from_prices(10, 12, 8, 10);
    let b = OHLC::from_prices(20, 22, 18, 20);
    let out = smooth_candles(&vec![OHLC::new(), a, b, OHLC::new()]);
    assert_eq!(out, vec![a, a, b, b]);
}

#[test]
fn gap_without_valid_neighbor_stays_empty() {
    let a = OHLC::from_prices(10, 12, 8, 10);
    let b = OHLC::from_prices(20, 22, 18, 20);
    let out = smooth_candles(&vec![a, OHLC::new(), OHLC::new(), OHLC::new(), b]);
    assert_eq!(out, vec![a, a, OHLC::new(), b, b]);
}

#[test]
fn smoothing_reads_the_input_series_only() {
    let out = smooth_candles(&vec![OHLC::new(), OHLC::new()]);
    assert_eq!(out, vec![OHLC::new(), OHLC::new()]);
    assert!(smooth_candles(&Vec::new()).is_empty());
    let one = OHLC::from_prices(3, 4, 2, 3);
    assert_eq!(smooth_candles(&vec![one]), vec![one]);
}
