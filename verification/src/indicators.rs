//! Which samples the MACD, RSI and EMA indicators read, and whether they
//! have enough of them.  The arithmetic over those samples is done by the
//! caller.

use vstd::prelude::*;

verus! {

/// Fewest prices for which the histogram of MACD(12, 26) with its signal
/// line is computed.
pub const MACD_MIN_SAMPLES: usize = 35;

/// MACD parameters: fast and slow EMA periods and signal period.
pub struct MACD {
    fast_period: usize,
    slow_period: usize,
    signal_period: usize,
}

impl MACD {
    #[verifier::type_invariant]
    spec fn periods_fit(self) -> bool {
        self.slow_period + self.signal_period <= usize::MAX
    }

    pub closed spec fn fast(&self) -> nat {
        self.fast_period as nat
    }

    pub closed spec fn slow(&self) -> nat {
        self.slow_period as nat
    }

    pub closed spec fn signal(&self) -> nat {
        self.signal_period as nat
    }

    /// The standard MACD(12, 26, 9).
    pub fn new() -> (m: MACD)
        ensures
            m.fast() == 12,
            m.slow() == 26,
            m.signal() == 9,
    {
        MACD { fast_period: 12, slow_period: 26, signal_period: 9 }
    }

    pub fn fast_period(&self) -> (p: usize)
        ensures
            p == self.fast(),
    {
        self.fast_period
    }

    pub fn slow_period(&self) -> (p: usize)
        ensures
            p == self.slow(),
    {
        self.slow_period
    }

    /// Whether `len` prices are enough for a reading: the slow period plus
    /// the signal period.
    pub fn has_enough(&self, len: usize) -> (b: bool)
        ensures
            b == (len >= self.slow() + self.signal()),
    {
        proof {
            use_type_invariant(self);
        }
        len >= self.slow_period + self.signal_period
    }
}

/// RSI parameter: the number of price changes averaged.
pub struct RSI {
    period: usize,
}

impl RSI {
    pub closed spec fn spec_period(&self) -> nat {
        self.period as nat
    }

    pub fn new(period: usize) -> (r: RSI)
        ensures
            r.spec_period() == period,
    {
        RSI { period }
    }

    pub fn period(&self) -> (p: usize)
        ensures
            p == self.spec_period(),
    {
        self.period
    }

    /// The indices `i` whose change `prices[i] - prices[i - 1]` enters a
    /// reading over `len` prices; see [`rsi_window`].
    pub fn window(&self, len: usize) -> (w: Option<(usize, usize)>)
        requires
            self.spec_period() < usize::MAX,
        ensures
            w == rsi_window_spec(len as nat, self.spec_period()),
    {
        rsi_window(len, self.period)
    }
}

/// The half-open index range `[len - period, len)` of the last `period`
/// price changes, or `None` when fewer than `period + 1` prices are given.
pub open spec fn rsi_window_spec(len: nat, period: nat) -> Option<(usize, usize)> {
    if len < period + 1 {
        None
    } else {
        Some(((len - period) as usize, len as usize))
    }
}

/// The range of indices `i` for which the RSI over `len` prices sums the
/// change `prices[i] - prices[i - 1]`.  Every index in it is at least 1.
pub fn rsi_window(len: usize, period: usize) -> (w: Option<(usize, usize)>)
    requires
        period < usize::MAX,
    ensures
        w == rsi_window_spec(len as nat, period as nat),
        w matches Some((lo, hi)) ==> 1 <= lo && lo <= hi && hi == len && hi - lo == period,
{
    if len < period + 1 {
        None
    } else {
        Some((len - period, len))
    }
}

/// An exponential moving average starts from the first price, so it needs
/// at least one.
pub fn ema_ready(len: usize) -> (b: bool)
    ensures
        b == (len > 0),
{
    len > 0
}

/// Whether `len` prices are enough for the MACD histogram.
pub fn macd_ready(len: usize) -> (b: bool)
    ensures
        b == (len >= MACD_MIN_SAMPLES),
{
    len >= MACD_MIN_SAMPLES
}

} // verus!
