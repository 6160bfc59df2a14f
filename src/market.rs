use vstd::prelude::*;

use crate::bucket::{build_candles, candles_of, MarketData};
use crate::candle::OHLC;

verus! {

/// Width of one hourly bucket, in milliseconds.
pub const HOUR_MS: u64 = 3_600_000;

/// Number of hourly buckets in a day.
pub const HOURS_PER_DAY: usize = 24;

/// The trades of one market as the trade feed delivered them.
pub struct MarketResponse {
    pub success: bool,
    pub data: Vec<MarketData>,
}

impl MarketResponse {
    /// Whether the feed reported success.
    pub fn is_valid(&self) -> (r: bool)
        ensures
            r == self.success,
    {
        self.success
    }

    /// The hourly candles of the last day before `now`, most recent first;
    /// `None` when the feed reported a failure.
    pub fn get_hourly_candles(&self, now: u64) -> (r: Option<Vec<OHLC>>)
        ensures
            !self.success ==> r is None,
            self.success ==> r is Some && r->0@ == candles_of(
                self.data@,
                now,
                HOUR_MS,
                HOURS_PER_DAY as nat,
            ),
    {
        if !self.is_valid() {
            return None;
        }
        Some(build_candles(&self.data, now, HOUR_MS, HOURS_PER_DAY))
    }
}

} // verus!
