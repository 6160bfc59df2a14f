use serum_twap::{aggregate_twap, calculate_twap, direct_twap, AggregationError, MarketData, OHLC};

const HOUR: u64 = 3_600_000;
const NOW: u64 = 1_700_000_000_000;

fn trade(price: u64, time: u64) -> MarketData {
    MarketData { price, size: 3, time }
}

#[test]
fn local_twap_is_mean_of_four_prices() {
    assert_eq!(OHLC::from_prices(10, 12, 8, 10).twap(), Some(10));
    assert_eq!(OHLC::from_prices(1, 2, 3, 5).twap(), Some(2));
    assert_eq!(OHLC::from_prices(u64::MAX, u64::MAX, u64::MAX, u64::MAX).twap(), Some(u64::MAX));
}

#[test]
fn twap_of_three_valid_candles_ignores_empty_ones() {
    let c1 = OHLC::from_prices(100, 100, 100, 100);
    let c2 = OHLC::from_prices(190, 210, 180, 220);
    let c3 = OHLC::from_prices(300, 350, 250, 300);
    assert_eq!(calculate_twap(&vec![c1, c2, c3]), Ok(200));
    let e = OHLC::new();
    assert_eq!(calculate_twap(&vec![e, c1, e, e, c2, c3, e]), Ok(200));
}

#[test]
fn all_invalid_candles_fail() {
    assert_eq!(calculate_twap(&vec![OHLC::new(); 24]), Err(AggregationError::AllBucketsInvalid));
    assert_eq!(calculate_twap(&Vec::new()), Err(AggregationError::AllBucketsInvalid));
}

#[test]
fn empty_input_fails() {
    assert_eq!(aggregate_twap(&Vec::new(), NOW, HOUR, 24), Err(AggregationError::EmptyInput));
    assert_eq!(direct_twap(&Vec::new(), HOUR), Err(AggregationError::EmptyInput));
}

#[test]
fn only_out_of_window_trades_fail() {
    let trades = vec![trade(10, NOW - 30 * HOUR), trade(11, NOW + 10)];
    assert_eq!(aggregate_twap(&trades, NOW, HOUR, 24), Err(AggregationError::AllBucketsInvalid));
}

#[test]
fn pipeline_end_to_end() {
    // bucket 0: 10,12,8,11 -> sum 41; bucket 2: 20 -> sum 80; bucket 1 repaired
    // from both as (15,16,14,15) -> sum 60.
    let trades = vec![
        trade(11, NOW - 10),
        trade(8, NOW - 20),
        trade(12, NOW - 30),
        trade(10, NOW - 40),
        trade(20, NOW - 2 * HOUR - 1),
        trade(99, NOW - 3 * HOUR),
    ];
    assert_eq!(aggregate_twap(&trades, NOW, HOUR, 3), Ok((41 + 60 + 80) / 12));
}

#[test]
fn pipeline_is_repeatable() {
    let trades = vec![trade(7, NOW - 1), trade(9, NOW - HOUR * 5), trade(8, NOW - HOUR * 7)];
    let first = aggregate_twap(&trades, NOW, HOUR, 24);
    let second = aggregate_twap(&trades, NOW, HOUR, 24);
    assert_eq!(first, second);
    assert!(first.is_ok());
}

#[test]
fn out_of_window_trade_changes_nothing() {
    let mut trades = vec![trade(7, NOW - 1), trade(9, NOW - HOUR * 5)];
    let before = aggregate_twap(&trades, NOW, HOUR, 24);
    trades.push(trade(1_000_000, NOW - HOUR * 24));
    trades.push(trade(1_000_000, NOW + 1));
    assert_eq!(aggregate_twap(&trades, NOW, HOUR, 24), before);
}

#[test]
fn direct_twap_single_window() {
    // newest first: close 11 at the first trade, open 10 at the last in-window one
    let trades = vec![
        trade(11, NOW),
        trade(8, NOW - 10),
        trade(12, NOW - 20),
        trade(10, NOW - HOUR + 1),
        trade(500, NOW - HOUR),
    ];
    assert_eq!(direct_twap(&trades, HOUR), Ok((10 + 12 + 8 + 11) / 4));
    assert_eq!(direct_twap(&vec![trade(6, NOW)], HOUR), Ok(6));
}
