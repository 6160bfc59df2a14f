use vstd::prelude::*;

use crate::candle::OHLC;

verus! {

/// Whether bucket `i` exists in `s` and holds a valid candle.
pub open spec fn valid_at(s: Seq<OHLC>, i: int) -> bool {
    0 <= i < s.len() && s[i].valid()
}

/// The repaired candle at index `i`, read from the input series only:
/// a valid candle is kept; an empty one takes the mean of two valid
/// neighbours, the one valid neighbour as it is, or stays empty.
pub open spec fn smoothed_at(s: Seq<OHLC>, i: int) -> OHLC {
    if s[i].valid() {
        s[i]
    } else if valid_at(s, i - 1) && valid_at(s, i + 1) {
        s[i + 1].interpolated(s[i - 1])
    } else if valid_at(s, i + 1) {
        s[i + 1]
    } else if valid_at(s, i - 1) {
        s[i - 1]
    } else {
        s[i]
    }
}

/// The whole series after one repair pass.
pub open spec fn smoothed(s: Seq<OHLC>) -> Seq<OHLC> {
    Seq::new(s.len(), |i: int| smoothed_at(s, i))
}

/// Repairs empty buckets from their neighbours in one pass over the
/// input series; the result has the same length.
pub fn smooth_candles(candles: &Vec<OHLC>) -> (r: Vec<OHLC>)
    ensures
        r@ == smoothed(candles@),
{
    let n = candles.len();
    let mut r: Vec<OHLC> = Vec::new();
    let mut i: usize = 0;
    while i < n
        invariant
            n == candles@.len(),
            i <= n,
            r@.len() == i,
            forall|j: int| 0 <= j < i ==> r@[j] == smoothed_at(candles@, j),
        decreases n - i,
    {
        let c = candles[i];
        let next_valid = i + 1 < n && candles[i + 1].is_valid();
        let prev_valid = i > 0 && candles[i - 1].is_valid();
        let repaired = if c.is_valid() {
            c
        } else if prev_valid && next_valid {
            candles[i + 1].interpolate(candles[i - 1])
        } else if next_valid {
            candles[i + 1]
        } else if prev_valid {
            candles[i - 1]
        } else {
            c
        };
        r.push(repaired);
        i = i + 1;
    }
    assert(r@ =~= smoothed(candles@));
    r
}

/// A valid candle passes through a repair unchanged.
pub proof fn lemma_valid_kept(s: Seq<OHLC>, i: int)
    requires
        0 <= i < s.len(),
        s[i].valid(),
    ensures
        smoothed(s)[i] == s[i],
{
}

/// An empty bucket between two valid neighbours becomes their element-wise mean.
pub proof fn lemma_between_two(s: Seq<OHLC>, i: int)
    requires
        0 < i < s.len() - 1,
        !s[i].valid(),
        s[i - 1].valid(),
        s[i + 1].valid(),
    ensures
        smoothed(s)[i] == s[i - 1].interpolated(s[i + 1]),
        smoothed(s)[i].valid(),
{
}

/// An empty bucket with exactly one valid neighbour becomes a copy of that
/// neighbour, not an average.
pub proof fn lemma_single_neighbor(s: Seq<OHLC>, i: int, j: int)
    requires
        0 <= i < s.len(),
        !s[i].valid(),
        j == i - 1 || j == i + 1,
        valid_at(s, j),
        !valid_at(s, 2 * i - j),
    ensures
        smoothed(s)[i] == s[j],
{
}

/// An empty bucket with no valid neighbour stays empty.
pub proof fn lemma_unrecoverable(s: Seq<OHLC>, i: int)
    requires
        0 <= i < s.len(),
        !s[i].valid(),
        !valid_at(s, i - 1),
        !valid_at(s, i + 1),
    ensures
        !smoothed(s)[i].valid(),
        smoothed(s)[i] == OHLC::empty(),
{
}

} // verus!
