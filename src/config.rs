use vstd::prelude::*;

verus! {

/// The longest averaging window, in minutes: one day.
pub const MAX_INTERVAL_MINUTES: i64 = 1440;

/// Number of buckets an averaging window is split into.
pub const BUCKETS_PER_WINDOW: usize = 24;

/// Milliseconds in a minute.
pub const MINUTE_MS: u64 = 60_000;

/// Why a requested setting was refused.
#[derive(Clone, Copy, Debug, PartialEq, Eq, Structural)]
pub enum ConfigError {
    /// The averaging window is not between one minute and one day.
    IntervalOutOfRange,
}

/// The bucket width, in milliseconds, of a window of `minutes` minutes.
pub open spec fn width_of(minutes: int) -> int {
    minutes * MINUTE_MS / BUCKETS_PER_WINDOW as int
}

/// The bucket width and bucket count for an averaging window of `minutes`
/// minutes, which must lie between 1 and a day.
pub fn window_plan(minutes: i64) -> (r: Result<(u64, usize), ConfigError>)
    ensures
        1 <= minutes <= MAX_INTERVAL_MINUTES ==> r == Ok::<(u64, usize), ConfigError>(
            (width_of(minutes as int) as u64, BUCKETS_PER_WINDOW),
        ),
        !(1 <= minutes <= MAX_INTERVAL_MINUTES) ==> r == Err::<(u64, usize), ConfigError>(
            ConfigError::IntervalOutOfRange,
        ),
        r matches Ok((w, _)) ==> w > 0,
{
    if minutes < 1 || minutes > MAX_INTERVAL_MINUTES {
        return Err(ConfigError::IntervalOutOfRange);
    }
    let ms: u64 = minutes as u64 * MINUTE_MS;
    Ok((ms / BUCKETS_PER_WINDOW as u64, BUCKETS_PER_WINDOW))
}

/// The byte of `/`.
pub const SLASH: u8 = 47;

/// The upper-case form of an ASCII letter; any other byte as it is.
pub open spec fn upper(b: u8) -> u8 {
    if 97 <= b <= 122 {
        (b - 32) as u8
    } else {
        b
    }
}

/// A market symbol in canonical form: ASCII letters upper-cased and every
/// `/` removed, so that `btc/usd` reads `BTCUSD`.
pub open spec fn normalized(s: Seq<u8>) -> Seq<u8>
    decreases s.len(),
{
    if s.len() == 0 {
        s
    } else {
        let rest = normalized(s.drop_last());
        if s.last() == SLASH {
            rest
        } else {
            rest.push(upper(s.last()))
        }
    }
}

/// The canonical form of a market symbol given as bytes.
pub fn normalize_symbol(raw: &Vec<u8>) -> (r: Vec<u8>)
    ensures
        r@ == normalized(raw@),
{
    let mut r: Vec<u8> = Vec::new();
    let mut k: usize = 0;
    while k < raw.len()
        invariant
            k <= raw@.len(),
            r@ == normalized(raw@.take(k as int)),
        decreases raw@.len() - k,
    {
        let b = raw[k];
        assert(raw@.take(k as int + 1).drop_last() =~= raw@.take(k as int));
        if b != SLASH {
            let u = if 97 <= b && b <= 122 {
                b - 32
            } else {
                b
            };
            r.push(u);
        }
        k = k + 1;
    }
    assert(raw@.take(raw@.len() as int) =~= raw@);
    r
}

} // verus!
