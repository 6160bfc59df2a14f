use vstd::prelude::*;

verus! {

/// The four summary prices of a bucket that held at least one trade.
#[derive(Clone, Copy, Debug, PartialEq, Eq, Structural)]
pub struct Prices {
    pub open: u64,
    pub high: u64,
    pub low: u64,
    pub close: u64,
}

/// The summary of one time bucket.
///
/// A candle is either empty (no trade fell in its bucket) or holds all four
/// prices at once: the four fields can never be partly set.
#[derive(Clone, Copy, Debug, PartialEq, Eq, Structural)]
pub struct OHLC {
    pub prices: Option<Prices>,
}

/// Arithmetic mean of two prices, rounded down to a whole tick.
pub open spec fn mid(a: u64, b: u64) -> int {
    (a as int + b as int) / 2
}

/// The sum of the four prices.
pub open spec fn price_sum(p: Prices) -> int {
    p.open as int + p.high as int + p.low as int + p.close as int
}

/// Element-wise mean of two price sets.
pub open spec fn mid_prices(a: Prices, b: Prices) -> Prices {
    Prices {
        open: mid(a.open, b.open) as u64,
        high: mid(a.high, b.high) as u64,
        low: mid(a.low, b.low) as u64,
        close: mid(a.close, b.close) as u64,
    }
}

impl OHLC {
    pub open spec fn valid(self) -> bool {
        self.prices is Some
    }

    pub open spec fn open_price(self) -> Option<u64> {
        match self.prices {
            Some(p) => Some(p.open),
            None => None,
        }
    }

    pub open spec fn high_price(self) -> Option<u64> {
        match self.prices {
            Some(p) => Some(p.high),
            None => None,
        }
    }

    pub open spec fn low_price(self) -> Option<u64> {
        match self.prices {
            Some(p) => Some(p.low),
            None => None,
        }
    }

    pub open spec fn close_price(self) -> Option<u64> {
        match self.prices {
            Some(p) => Some(p.close),
            None => None,
        }
    }

    pub open spec fn empty() -> OHLC {
        OHLC { prices: None }
    }

    /// What `interpolate` returns: the mean of two valid candles, else empty.
    pub open spec fn interpolated(self, other: OHLC) -> OHLC {
        if self.valid() && other.valid() {
            OHLC { prices: Some(mid_prices(self.prices->0, other.prices->0)) }
        } else {
            OHLC::empty()
        }
    }

    /// The candle's own average, `(open + high + low + close) / 4`, rounded down.
    pub open spec fn local_twap(self) -> Option<u64> {
        match self.prices {
            Some(p) => Some((price_sum(p) / 4) as u64),
            None => None,
        }
    }

    /// An empty candle.
    pub fn new() -> (r: OHLC)
        ensures
            r == OHLC::empty(),
    {
        OHLC { prices: None }
    }

    /// A valid candle with the given prices.
    pub fn from_prices(open: u64, high: u64, low: u64, close: u64) -> (r: OHLC)
        ensures
            r.prices == Some(Prices { open, high, low, close }),
    {
        OHLC { prices: Some(Prices { open, high, low, close }) }
    }

    pub fn is_valid(&self) -> (r: bool)
        ensures
            r == self.valid(),
    {
        self.prices.is_some()
    }

    pub fn open(&self) -> (r: Option<u64>)
        ensures
            r == self.open_price(),
    {
        match self.prices {
            Some(p) => Some(p.open),
            None => None,
        }
    }

    pub fn high(&self) -> (r: Option<u64>)
        ensures
            r == self.high_price(),
    {
        match self.prices {
            Some(p) => Some(p.high),
            None => None,
        }
    }

    pub fn low(&self) -> (r: Option<u64>)
        ensures
            r == self.low_price(),
    {
        match self.prices {
            Some(p) => Some(p.low),
            None => None,
        }
    }

    pub fn close(&self) -> (r: Option<u64>)
        ensures
            r == self.close_price(),
    {
        match self.prices {
            Some(p) => Some(p.close),
            None => None,
        }
    }

    /// Element-wise mean of two valid candles; empty when either is empty.
    pub fn interpolate(&self, other: OHLC) -> (r: OHLC)
        ensures
            r == self.interpolated(other),
    {
        match (self.prices, other.prices) {
            (Some(a), Some(b)) => OHLC {
                prices: Some(
                    Prices {
                        open: mean2(a.open, b.open),
                        high: mean2(a.high, b.high),
                        low: mean2(a.low, b.low),
                        close: mean2(a.close, b.close),
                    },
                ),
            },
            _ => OHLC { prices: None },
        }
    }

    /// The candle's own average price, or `None` for an empty candle.
    pub fn twap(&self) -> (r: Option<u64>)
        ensures
            r == self.local_twap(),
    {
        match self.prices {
            Some(p) => {
                let s: u128 = p.open as u128 + p.high as u128 + p.low as u128 + p.close as u128;
                Some((s / 4) as u64)
            },
            None => None,
        }
    }
}

fn mean2(a: u64, b: u64) -> (r: u64)
    ensures
        r == mid(a, b),
{
    ((a as u128 + b as u128) / 2) as u64
}

/// Every candle either holds all four prices or none of them: it is never
/// partly set.
pub proof fn lemma_all_or_none(c: OHLC)
    ensures
        c.open_price() is Some <==> c.valid(),
        c.high_price() is Some <==> c.valid(),
        c.low_price() is Some <==> c.valid(),
        c.close_price() is Some <==> c.valid(),
{
}

} // verus!
