use vstd::prelude::*;

use crate::candle::{Prices, OHLC};

verus! {

/// One trade as the aggregation reads it.
#[derive(Clone, Copy, Debug, PartialEq, Eq, Structural)]
pub struct MarketData {
    /// Price in ticks.
    pub price: u64,
    /// Traded quantity; carried along, never weighted.
    pub size: u64,
    /// Milliseconds since the epoch.
    pub time: u64,
}

/// The bucket a trade at `time` falls in, counted back from `now` in steps of
/// `width`: `floor((now - time) / width)`. Negative for trades after `now`.
pub open spec fn bucket_index(time: u64, now: u64, width: u64) -> int {
    (now as int - time as int) / (width as int)
}

/// The trades of `trades` that fall in bucket `i`, in the order received.
pub open spec fn bucket_group(trades: Seq<MarketData>, now: u64, width: u64, i: int) -> Seq<
    MarketData,
>
    decreases trades.len(),
{
    if trades.len() == 0 {
        Seq::empty()
    } else {
        let rest = bucket_group(trades.drop_last(), now, width, i);
        if bucket_index(trades.last().time, now, width) == i {
            rest.push(trades.last())
        } else {
            rest
        }
    }
}

/// The chronologically earliest trade; the first received among equal times.
pub open spec fn earliest(s: Seq<MarketData>) -> MarketData
    recommends
        s.len() > 0,
    decreases s.len(),
{
    if s.len() <= 1 {
        s[0]
    } else {
        let e = earliest(s.drop_last());
        if s.last().time < e.time {
            s.last()
        } else {
            e
        }
    }
}

/// The chronologically latest trade; the last received among equal times.
pub open spec fn latest(s: Seq<MarketData>) -> MarketData
    recommends
        s.len() > 0,
    decreases s.len(),
{
    if s.len() <= 1 {
        s[0]
    } else {
        let l = latest(s.drop_last());
        if s.last().time >= l.time {
            s.last()
        } else {
            l
        }
    }
}

/// The highest price of a non-empty group.
pub open spec fn max_price(s: Seq<MarketData>) -> u64
    recommends
        s.len() > 0,
    decreases s.len(),
{
    if s.len() <= 1 {
        s[0].price
    } else {
        let m = max_price(s.drop_last());
        if s.last().price > m {
            s.last().price
        } else {
            m
        }
    }
}

/// The lowest price of a non-empty group.
pub open spec fn min_price(s: Seq<MarketData>) -> u64
    recommends
        s.len() > 0,
    decreases s.len(),
{
    if s.len() <= 1 {
        s[0].price
    } else {
        let m = min_price(s.drop_last());
        if s.last().price < m {
            s.last().price
        } else {
            m
        }
    }
}

/// The candle of one bucket's trades: empty for no trades, else open at the
/// earliest trade, close at the latest, high and low at the extremes.
pub open spec fn candle_of(s: Seq<MarketData>) -> OHLC {
    if s.len() == 0 {
        OHLC::empty()
    } else {
        OHLC {
            prices: Some(
                Prices {
                    open: earliest(s).price,
                    high: max_price(s),
                    low: min_price(s),
                    close: latest(s).price,
                },
            ),
        }
    }
}

/// The candles of `count` buckets of `width` milliseconds ending at `now`;
/// index 0 is the most recent bucket.
pub open spec fn candles_of(trades: Seq<MarketData>, now: u64, width: u64, count: nat) -> Seq<
    OHLC,
> {
    Seq::new(count, |i: int| candle_of(bucket_group(trades, now, width, i)))
}

proof fn lemma_after_now(time: u64, now: u64, width: u64)
    requires
        time > now,
        width > 0,
    ensures
        bucket_index(time, now, width) < 0,
{
    assert((now as int - time as int) / (width as int) < 0) by (nonlinear_arith)
        requires
            (now as int - time as int) < 0,
            width > 0;
}

/// Every trade of bucket `i`'s group lies in bucket `i`, and was received.
pub proof fn lemma_group_members(trades: Seq<MarketData>, now: u64, width: u64, i: int)
    ensures
        forall|k: int|
            0 <= k < bucket_group(trades, now, width, i).len() ==> {
                &&& bucket_index(#[trigger] bucket_group(trades, now, width, i)[k].time, now, width) == i
                &&& trades.contains(bucket_group(trades, now, width, i)[k])
            },
    decreases trades.len(),
{
    if trades.len() > 0 {
        let rest = trades.drop_last();
        lemma_group_members(rest, now, width, i);
        let g = bucket_group(trades, now, width, i);
        assert forall|k: int| 0 <= k < g.len() implies {
            &&& bucket_index(#[trigger] g[k].time, now, width) == i
            &&& trades.contains(g[k])
        } by {
            let rg = bucket_group(rest, now, width, i);
            if k < rg.len() {
                assert(rg[k] == g[k]);
                assert(bucket_index(rg[k].time, now, width) == i);
                assert(rest.contains(rg[k]));
                let j = choose|j: int| 0 <= j < rest.len() && rest[j] == rg[k];
                assert(trades[j] == g[k]);
            } else {
                assert(trades[trades.len() - 1] == g[k]);
            }
        }
    }
}

/// A trade outside the `count` buckets that end at `now` (after `now`, or
/// `count` or more widths before it) changes no candle.
pub proof fn lemma_out_of_window_dropped(
    trades: Seq<MarketData>,
    t: MarketData,
    now: u64,
    width: u64,
    count: nat,
)
    requires
        !(0 <= bucket_index(t.time, now, width) < count),
    ensures
        candles_of(trades.push(t), now, width, count) == candles_of(trades, now, width, count),
{
    assert(trades.push(t).drop_last() =~= trades);
    assert forall|i: int| 0 <= i < count implies bucket_group(trades.push(t), now, width, i)
        == bucket_group(trades, now, width, i) by {}
    assert(candles_of(trades.push(t), now, width, count) =~= candles_of(trades, now, width, count));
}

/// The candle of a non-empty group: its open and close trades are members,
/// none earlier than the open nor later than the close; high and low bound
/// every price and are prices of the group.
pub proof fn lemma_candle_extremes(s: Seq<MarketData>)
    requires
        s.len() > 0,
    ensures
        s.contains(earliest(s)),
        s.contains(latest(s)),
        exists|k: int| 0 <= k < s.len() && s[k].price == max_price(s),
        exists|k: int| 0 <= k < s.len() && s[k].price == min_price(s),
        forall|k: int|
            0 <= k < s.len() ==> {
                &&& earliest(s).time <= #[trigger] s[k].time
                &&& latest(s).time >= s[k].time
                &&& min_price(s) <= s[k].price <= max_price(s)
            },
    decreases s.len(),
{
    if s.len() > 1 {
        let r = s.drop_last();
        lemma_candle_extremes(r);
        let ke = choose|k: int| 0 <= k < r.len() && r[k] == earliest(r);
        let kl = choose|k: int| 0 <= k < r.len() && r[k] == latest(r);
        let kh = choose|k: int| 0 <= k < r.len() && r[k].price == max_price(r);
        let km = choose|k: int| 0 <= k < r.len() && r[k].price == min_price(r);
        assert(s[ke] == r[ke] && s[kl] == r[kl] && s[kh] == r[kh] && s[km] == r[km]);
        assert(s[s.len() - 1] == s.last());
        assert forall|k: int| 0 <= k < s.len() implies {
            &&& earliest(s).time <= #[trigger] s[k].time
            &&& latest(s).time >= s[k].time
            &&& min_price(s) <= s[k].price <= max_price(s)
        } by {
            if k < r.len() {
                assert(s[k] == r[k]);
            }
        }
    } else {
        assert(s[0] == s[0]);
    }
}

/// An empty group gives an empty candle.
pub proof fn lemma_empty_group_invalid(s: Seq<MarketData>)
    requires
        s.len() == 0,
    ensures
        candle_of(s) == OHLC::empty(),
        !candle_of(s).valid(),
{
}

/// The bucket of a trade at `time`, or `None` when it lies outside the
/// `count` buckets that end at `now`.
pub fn bucket_of(time: u64, now: u64, width: u64, count: usize) -> (r: Option<usize>)
    requires
        width > 0,
    ensures
        r == (if 0 <= bucket_index(time, now, width) < count {
            Some(bucket_index(time, now, width) as usize)
        } else {
            None
        }),
{
    if time > now {
        proof {
            lemma_after_now(time, now, width);
        }
        return None;
    }
    let i = (now - time) / width;
    if i < count as u64 {
        Some(i as usize)
    } else {
        None
    }
}

/// The trades of bucket `i`, in the order received.
pub fn group_for_bucket(trades: &Vec<MarketData>, now: u64, width: u64, i: usize) -> (r: Vec<
    MarketData,
>)
    requires
        width > 0,
    ensures
        r@ == bucket_group(trades@, now, width, i as int),
{
    let mut r: Vec<MarketData> = Vec::new();
    let mut k: usize = 0;
    while k < trades.len()
        invariant
            width > 0,
            k <= trades@.len(),
            r@ == bucket_group(trades@.take(k as int), now, width, i as int),
        decreases trades@.len() - k,
    {
        let t = trades[k];
        assert(trades@.take(k as int + 1).drop_last() =~= trades@.take(k as int));
        let in_bucket = t.time <= now && (now - t.time) / width == i as u64;
        proof {
            if t.time > now {
                lemma_after_now(t.time, now, width);
            }
        }
        if in_bucket {
            r.push(t);
        }
        k = k + 1;
    }
    assert(trades@.take(trades@.len() as int) =~= trades@);
    r
}

/// The candle of one bucket's trades: all-empty for no trades.
pub fn build_candle(group: &Vec<MarketData>) -> (r: OHLC)
    ensures
        r == candle_of(group@),
{
    if group.len() == 0 {
        return OHLC::new();
    }
    let mut first = group[0];
    let mut last = group[0];
    let mut high: u64 = group[0].price;
    let mut low: u64 = group[0].price;
    let mut k: usize = 1;
    while k < group.len()
        invariant
            1 <= k <= group@.len(),
            first == earliest(group@.take(k as int)),
            last == latest(group@.take(k as int)),
            high == max_price(group@.take(k as int)),
            low == min_price(group@.take(k as int)),
        decreases group@.len() - k,
    {
        let t = group[k];
        assert(group@.take(k as int + 1).drop_last() =~= group@.take(k as int));
        if t.time < first.time {
            first = t;
        }
        if t.time >= last.time {
            last = t;
        }
        if t.price > high {
            high = t.price;
        }
        if t.price < low {
            low = t.price;
        }
        k = k + 1;
    }
    assert(group@.take(group@.len() as int) =~= group@);
    OHLC::from_prices(first.price, high, low, last.price)
}

/// Splits `trades` into `count` buckets of `width` milliseconds ending at
/// `now`, most recent first, each in the order received. Trades outside
/// those buckets are dropped.
pub fn bucketize(trades: &Vec<MarketData>, now: u64, width: u64, count: usize) -> (r: Vec<
    Vec<MarketData>,
>)
    requires
        width > 0,
    ensures
        r@.len() == count,
        forall|i: int| 0 <= i < count ==> (#[trigger] r@[i])@ == bucket_group(trades@, now, width, i),
{
    let mut r: Vec<Vec<MarketData>> = Vec::new();
    let mut i: usize = 0;
    while i < count
        invariant
            width > 0,
            i <= count,
            r@.len() == i,
            forall|j: int| 0 <= j < i ==> (#[trigger] r@[j])@ == bucket_group(trades@, now, width, j),
        decreases count - i,
    {
        let group = group_for_bucket(trades, now, width, i);
        r.push(group);
        i = i + 1;
    }
    r
}

/// The candles of `count` buckets of `width` milliseconds ending at `now`,
/// most recent first. Trades outside those buckets are dropped.
pub fn build_candles(trades: &Vec<MarketData>, now: u64, width: u64, count: usize) -> (r: Vec<
    OHLC,
>)
    requires
        width > 0,
    ensures
        r@ == candles_of(trades@, now, width, count as nat),
{
    let groups = bucketize(trades, now, width, count);
    let mut r: Vec<OHLC> = Vec::new();
    let mut i: usize = 0;
    while i < count
        invariant
            i <= count,
            groups@.len() == count,
            forall|j: int| 0 <= j < count ==> (#[trigger] groups@[j])@ == bucket_group(trades@, now, width, j),
            r@ =~= candles_of(trades@, now, width, i as nat),
        decreases count - i,
    {
        let c = build_candle(&groups[i]);
        r.push(c);
        i = i + 1;
        assert(r@ =~= candles_of(trades@, now, width, i as nat));
    }
    r
}

} // verus!
