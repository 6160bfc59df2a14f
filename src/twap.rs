use vstd::prelude::*;

use crate::bucket::{
    bucket_group, bucket_index, build_candle, build_candles, candle_of, candles_of, group_for_bucket,
    lemma_out_of_window_dropped, MarketData,
};
use crate::candle::{price_sum, OHLC};
use crate::smooth::{smooth_candles, smoothed};

verus! {

/// Why no average price could be given.
#[derive(Clone, Copy, Debug, PartialEq, Eq, Structural)]
pub enum AggregationError {
    /// No trade was supplied at all.
    EmptyInput,
    /// No bucket holds a usable candle, even after repair.
    AllBucketsInvalid,
}

/// The largest series the reducer accepts: its running sum is a `u128`.
pub const MAX_BUCKETS: usize = 0xffff_ffff;

/// How many candles of `s` are valid.
pub open spec fn valid_count(s: Seq<OHLC>) -> nat
    decreases s.len(),
{
    if s.len() == 0 {
        0
    } else {
        valid_count(s.drop_last()) + if s.last().valid() {
            1nat
        } else {
            0nat
        }
    }
}

/// The sum of `open + high + low + close` over the valid candles of `s`.
pub open spec fn total_sum(s: Seq<OHLC>) -> int
    decreases s.len(),
{
    if s.len() == 0 {
        0
    } else {
        total_sum(s.drop_last()) + match s.last().prices {
            Some(p) => price_sum(p),
            None => 0,
        }
    }
}

/// The mean over the valid candles of each candle's own mean of its four
/// prices, rounded down; an error when no candle is valid.
pub open spec fn twap_of(s: Seq<OHLC>) -> Result<u64, AggregationError> {
    if valid_count(s) == 0 {
        Err(AggregationError::AllBucketsInvalid)
    } else {
        Ok((total_sum(s) / (4 * valid_count(s) as int)) as u64)
    }
}

/// The result of the whole pipeline on `trades`, with `count` buckets of
/// `width` milliseconds ending at `now`.
pub open spec fn pipeline_twap(trades: Seq<MarketData>, now: u64, width: u64, count: nat) -> Result<
    u64,
    AggregationError,
> {
    if trades.len() == 0 {
        Err(AggregationError::EmptyInput)
    } else {
        twap_of(smoothed(candles_of(trades, now, width, count)))
    }
}

/// The single-window variant: one bucket of `interval` milliseconds that
/// ends at the first trade received.
pub open spec fn direct_twap_of(trades: Seq<MarketData>, interval: u64) -> Result<
    u64,
    AggregationError,
> {
    if trades.len() == 0 {
        Err(AggregationError::EmptyInput)
    } else {
        twap_of(seq![candle_of(bucket_group(trades, trades[0].time, interval, 0))])
    }
}

proof fn lemma_sum_bounds(s: Seq<OHLC>)
    ensures
        0 <= total_sum(s) <= 4 * u64::MAX * valid_count(s),
        valid_count(s) <= s.len(),
    decreases s.len(),
{
    if s.len() > 0 {
        lemma_sum_bounds(s.drop_last());
    }
}

proof fn lemma_mean_fits(total: int, count: int)
    requires
        count > 0,
        0 <= total <= 4 * u64::MAX * count,
    ensures
        0 <= total / (4 * count) <= u64::MAX,
{
    assert(0 <= total / (4 * count) <= u64::MAX) by (nonlinear_arith)
        requires
            count > 0,
            0 <= total <= 4 * u64::MAX * count;
}

/// The overall average of a repaired series; empty candles count neither in
/// the sum nor in the number of candles.
pub fn calculate_twap(candles: &Vec<OHLC>) -> (r: Result<u64, AggregationError>)
    requires
        candles@.len() <= MAX_BUCKETS,
    ensures
        r == twap_of(candles@),
{
    let mut total: u128 = 0;
    let mut valid: u64 = 0;
    let mut i: usize = 0;
    while i < candles.len()
        invariant
            i <= candles@.len() <= MAX_BUCKETS,
            total == total_sum(candles@.take(i as int)),
            valid == valid_count(candles@.take(i as int)),
        decreases candles@.len() - i,
    {
        proof {
            lemma_sum_bounds(candles@.take(i as int));
        }
        assert(candles@.take(i as int + 1).drop_last() =~= candles@.take(i as int));
        match candles[i].prices {
            Some(p) => {
                total = total + p.open as u128 + p.high as u128 + p.low as u128 + p.close as u128;
                valid = valid + 1;
            },
            None => {},
        }
        i = i + 1;
    }
    assert(candles@.take(candles@.len() as int) =~= candles@);
    if valid == 0 {
        return Err(AggregationError::AllBucketsInvalid);
    }
    proof {
        lemma_sum_bounds(candles@);
        lemma_mean_fits(total as int, valid as int);
    }
    Ok((total / (4 * valid as u128)) as u64)
}

/// The average price of `trades` over `count` buckets of `width`
/// milliseconds ending at `now`: bucket, build candles, repair, reduce.
pub fn aggregate_twap(trades: &Vec<MarketData>, now: u64, width: u64, count: usize) -> (r: Result<
    u64,
    AggregationError,
>)
    requires
        width > 0,
        count <= MAX_BUCKETS,
    ensures
        r == pipeline_twap(trades@, now, width, count as nat),
{
    if trades.len() == 0 {
        return Err(AggregationError::EmptyInput);
    }
    let candles = build_candles(trades, now, width, count);
    let repaired = smooth_candles(&candles);
    calculate_twap(&repaired)
}

/// The single-window average: one bucket of `interval` milliseconds ending
/// at the first trade received, with no repair step.
pub fn direct_twap(trades: &Vec<MarketData>, interval: u64) -> (r: Result<u64, AggregationError>)
    requires
        interval > 0,
    ensures
        r == direct_twap_of(trades@, interval),
{
    if trades.len() == 0 {
        return Err(AggregationError::EmptyInput);
    }
    let group = group_for_bucket(trades, trades[0].time, interval, 0);
    let candle = build_candle(&group);
    let series = vec![candle];
    assert(series@ =~= seq![candle_of(bucket_group(trades@, trades@[0].time, interval, 0))]);
    calculate_twap(&series)
}

proof fn lemma_split(a: Seq<OHLC>, b: Seq<OHLC>)
    ensures
        valid_count(a + b) == valid_count(a) + valid_count(b),
        total_sum(a + b) == total_sum(a) + total_sum(b),
    decreases b.len(),
{
    if b.len() > 0 {
        lemma_split(a, b.drop_last());
        assert((a + b).drop_last() =~= a + b.drop_last());
    } else {
        assert(a + b =~= a);
    }
}

/// An empty candle, wherever it stands in the series, counts neither in the
/// sum nor in the number of candles: the average is the same without it.
pub proof fn lemma_invalid_excluded(a: Seq<OHLC>, c: OHLC, b: Seq<OHLC>)
    requires
        !c.valid(),
    ensures
        twap_of(a + seq![c] + b) == twap_of(a + b),
{
    lemma_split(a, seq![c]);
    lemma_split(a + seq![c], b);
    lemma_split(a, b);
    let one = seq![c];
    assert(one.drop_last() =~= Seq::<OHLC>::empty());
    assert(one.last() == c);
    assert(valid_count(one.drop_last()) == 0 && total_sum(one.drop_last()) == 0);
    assert(valid_count(one) == 0 && total_sum(one) == 0);
}

/// The average fails with `AllBucketsInvalid` exactly when no candle of the
/// series is valid; it never yields a value then.
pub proof fn lemma_all_invalid(s: Seq<OHLC>)
    ensures
        (forall|i: int| 0 <= i < s.len() ==> !(#[trigger] s[i]).valid()) <==> twap_of(s) == Err::<
            u64,
            AggregationError,
        >(AggregationError::AllBucketsInvalid),
    decreases s.len(),
{
    if s.len() > 0 {
        let r = s.drop_last();
        lemma_all_invalid(r);
        if forall|i: int| 0 <= i < s.len() ==> !(#[trigger] s[i]).valid() {
            assert forall|i: int| 0 <= i < r.len() implies !(#[trigger] r[i]).valid() by {
                assert(r[i] == s[i]);
            }
            assert(!s[s.len() - 1].valid());
        } else {
            let i = choose|i: int| 0 <= i < s.len() && (#[trigger] s[i]).valid();
            if i < r.len() {
                assert(r[i] == s[i]);
            }
        }
    }
}

/// The pipeline keeps no state: the same trades, instant and buckets always
/// give the same result.
pub proof fn lemma_pipeline_deterministic(
    trades: Seq<MarketData>,
    again: Seq<MarketData>,
    now: u64,
    width: u64,
    count: nat,
)
    requires
        trades == again,
    ensures
        pipeline_twap(trades, now, width, count) == pipeline_twap(again, now, width, count),
{
}

/// A trade outside the observed buckets leaves the pipeline's result as it
/// was, once at least one trade is there.
pub proof fn lemma_pipeline_ignores_out_of_window(
    trades: Seq<MarketData>,
    t: MarketData,
    now: u64,
    width: u64,
    count: nat,
)
    requires
        trades.len() > 0,
        !(0 <= bucket_index(t.time, now, width) < count),
    ensures
        pipeline_twap(trades.push(t), now, width, count) == pipeline_twap(trades, now, width, count),
{
    lemma_out_of_window_dropped(trades, t, now, width, count);
}

} // verus!
