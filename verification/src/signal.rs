//! Signals of the MACD+RSI strategy, decided from the outcomes of the
//! comparisons that the strategy makes.

use vstd::prelude::*;

verus! {

/// Where a value lies with respect to a reference value, as a floating-point
/// comparison reports it; `Unordered` is the outcome when either is NaN.
#[derive(Clone, Copy, Debug, PartialEq, Eq, Structural)]
pub enum Side {
    Below,
    At,
    Above,
    Unordered,
}

impl Side {
    /// `value <= reference`.
    pub open spec fn spec_at_most(self) -> bool {
        self == Side::Below || self == Side::At
    }

    /// `value >= reference`.
    pub open spec fn spec_at_least(self) -> bool {
        self == Side::Above || self == Side::At
    }

    #[verifier::when_used_as_spec(spec_at_most)]
    pub fn at_most(self) -> (b: bool)
        ensures
            b == self.spec_at_most(),
    {
        match self {
            Side::Below | Side::At => true,
            _ => false,
        }
    }

    #[verifier::when_used_as_spec(spec_at_least)]
    pub fn at_least(self) -> (b: bool)
        ensures
            b == self.spec_at_least(),
    {
        match self {
            Side::Above | Side::At => true,
            _ => false,
        }
    }
}

/// What the strategy advises.
#[derive(Clone, Copy, Debug, PartialEq, Eq, Structural)]
pub enum Signal {
    Long,
    Short,
    Hold,
}

/// The histogram crossed zero upwards: it was at or below zero and is now
/// above it.  With no previous reading there is no crossing.
pub open spec fn spec_crossed_up(prev: Option<Side>, cur: Side) -> bool {
    prev matches Some(p) && p.spec_at_most() && cur == Side::Above
}

/// The histogram crossed zero downwards: it was at or above zero and is now
/// below it.  With no previous reading there is no crossing.
pub open spec fn spec_crossed_down(prev: Option<Side>, cur: Side) -> bool {
    prev matches Some(p) && p.spec_at_least() && cur == Side::Below
}

/// `prev` and `cur` compare the previous and current histogram with zero.
#[verifier::when_used_as_spec(spec_crossed_up)]
pub fn crossed_up(prev: Option<Side>, cur: Side) -> (b: bool)
    ensures
        b == spec_crossed_up(prev, cur),
{
    match prev {
        Some(p) => p.at_most() && cur == Side::Above,
        None => false,
    }
}

/// `prev` and `cur` compare the previous and current histogram with zero.
#[verifier::when_used_as_spec(spec_crossed_down)]
pub fn crossed_down(prev: Option<Side>, cur: Side) -> (b: bool)
    ensures
        b == spec_crossed_down(prev, cur),
{
    match prev {
        Some(p) => p.at_least() && cur == Side::Below,
        None => false,
    }
}

/// A value left the zone below a threshold: the previous value was below
/// it and the current one is above it.
pub open spec fn spec_left_below(prev: Option<Side>, cur: Side) -> bool {
    prev == Some(Side::Below) && cur == Side::Above
}

/// A value left the zone above a threshold: the previous value was above
/// it and the current one is below it.
pub open spec fn spec_left_above(prev: Option<Side>, cur: Side) -> bool {
    prev == Some(Side::Above) && cur == Side::Below
}

/// `prev` and `cur` compare the previous and current value with the
/// threshold (the RSI with its oversold level).
#[verifier::when_used_as_spec(spec_left_below)]
pub fn left_below(prev: Option<Side>, cur: Side) -> (b: bool)
    ensures
        b == spec_left_below(prev, cur),
{
    prev == Some(Side::Below) && cur == Side::Above
}

/// `prev` and `cur` compare the previous and current value with the
/// threshold (the RSI with its overbought level).
#[verifier::when_used_as_spec(spec_left_above)]
pub fn left_above(prev: Option<Side>, cur: Side) -> (b: bool)
    ensures
        b == spec_left_above(prev, cur),
{
    prev == Some(Side::Above) && cur == Side::Below
}

/// Long on a bullish crossing together with the RSI leaving the oversold
/// zone; otherwise short on a bearish crossing together with the RSI
/// leaving the overbought zone; otherwise hold.
pub open spec fn spec_wave_signal(
    bullish_cross: bool,
    rsi_exit_oversold: bool,
    bearish_cross: bool,
    rsi_exit_overbought: bool,
) -> Signal {
    if bullish_cross && rsi_exit_oversold {
        Signal::Long
    } else if bearish_cross && rsi_exit_overbought {
        Signal::Short
    } else {
        Signal::Hold
    }
}

impl Signal {
    pub fn from_conditions(
        bullish_cross: bool,
        rsi_exit_oversold: bool,
        bearish_cross: bool,
        rsi_exit_overbought: bool,
    ) -> (s: Signal)
        ensures
            s == spec_wave_signal(bullish_cross, rsi_exit_oversold, bearish_cross, rsi_exit_overbought),
    {
        if bullish_cross && rsi_exit_oversold {
            Signal::Long
        } else if bearish_cross && rsi_exit_overbought {
            Signal::Short
        } else {
            Signal::Hold
        }
    }
}

/// The signal of the MACD+RSI wave strategy.  `prev_hist` and `hist`
/// compare the previous and current MACD histogram with zero; `prev_rsi_os`
/// and `rsi_os` compare the previous and current RSI with the oversold
/// level, `prev_rsi_ob` and `rsi_ob` with the overbought level.  A missing
/// previous reading is `None`.
pub fn wave_signal(
    prev_hist: Option<Side>,
    hist: Side,
    prev_rsi_os: Option<Side>,
    rsi_os: Side,
    prev_rsi_ob: Option<Side>,
    rsi_ob: Side,
) -> (s: Signal)
    ensures
        s == spec_wave_signal(
            spec_crossed_up(prev_hist, hist),
            spec_left_below(prev_rsi_os, rsi_os),
            spec_crossed_down(prev_hist, hist),
            spec_left_above(prev_rsi_ob, rsi_ob),
        ),
{
    Signal::from_conditions(
        crossed_up(prev_hist, hist),
        left_below(prev_rsi_os, rsi_os),
        crossed_down(prev_hist, hist),
        left_above(prev_rsi_ob, rsi_ob),
    )
}

/// The histogram never crosses zero upwards and downwards at once.
pub proof fn law_crossings_exclusive(prev: Option<Side>, cur: Side)
    ensures
        !(spec_crossed_up(prev, cur) && spec_crossed_down(prev, cur)),
{
}

/// `at_most` and `at_least` read a comparison as `<=` and `>=` do: a value
/// at the reference counts for both, a NaN (`Unordered`) for neither.
pub proof fn law_side_bounds(s: Side)
    ensures
        s.spec_at_most() <==> (s == Side::Below || s == Side::At),
        s.spec_at_least() <==> (s == Side::Above || s == Side::At),
        s == Side::Unordered ==> !s.spec_at_most() && !s.spec_at_least(),
{
}

/// A crossing is read off the sides of zero of the previous and the
/// current histogram.  Upwards: it was at or below zero and is now above.
/// Downwards: it was at or above zero and is now below.  So a histogram
/// that is above zero now never crosses downwards, one below zero never
/// crosses upwards, and without a previous reading nothing crosses.
pub proof fn law_crossings_by_sign(prev: Option<Side>, cur: Side)
    ensures
        spec_crossed_up(prev, cur) <==> ((prev == Some(Side::Below) || prev == Some(Side::At)) && cur
            == Side::Above),
        spec_crossed_down(prev, cur) <==> ((prev == Some(Side::Above) || prev == Some(Side::At))
            && cur == Side::Below),
        spec_crossed_up(prev, cur) ==> cur == Side::Above,
        spec_crossed_down(prev, cur) ==> cur == Side::Below,
        prev is None ==> !spec_crossed_up(prev, cur) && !spec_crossed_down(prev, cur),
{
}

/// Leaving a zone takes a previous reading inside it and a current reading
/// strictly on the other side of the threshold.
pub proof fn law_zone_exits(prev: Option<Side>, cur: Side)
    ensures
        spec_left_below(prev, cur) <==> (prev == Some(Side::Below) && cur == Side::Above),
        spec_left_above(prev, cur) <==> (prev == Some(Side::Above) && cur == Side::Below),
        !(spec_left_below(prev, cur) && spec_left_above(prev, cur)),
{
}

/// The wave signal is long exactly when both long conditions hold, short
/// exactly when both short conditions hold and the long ones do not, and
/// hold otherwise: one short condition alone is never enough.
pub proof fn law_wave_signal_needs_both(
    bullish_cross: bool,
    rsi_exit_oversold: bool,
    bearish_cross: bool,
    rsi_exit_overbought: bool,
)
    ensures
        (spec_wave_signal(bullish_cross, rsi_exit_oversold, bearish_cross, rsi_exit_overbought)
            == Signal::Long) <==> (bullish_cross && rsi_exit_oversold),
        (spec_wave_signal(bullish_cross, rsi_exit_oversold, bearish_cross, rsi_exit_overbought)
            == Signal::Short) <==> (bearish_cross && rsi_exit_overbought && !(bullish_cross
            && rsi_exit_oversold)),
        (spec_wave_signal(bullish_cross, rsi_exit_oversold, bearish_cross, rsi_exit_overbought)
            == Signal::Hold) <==> (!(bullish_cross && rsi_exit_oversold) && !(bearish_cross
            && rsi_exit_overbought)),
{
}

/// What [`wave_signal`] returns, in terms of its inputs: long only when the
/// histogram is now above zero after a reading at or below it and the RSI
/// has just risen out of the oversold zone; short only when the histogram
/// is now below zero after a reading at or above it and the RSI has just
/// fallen out of the overbought zone; hold otherwise.
pub proof fn law_wave_signal_by_sides(
    prev_hist: Option<Side>,
    hist: Side,
    prev_rsi_os: Option<Side>,
    rsi_os: Side,
    prev_rsi_ob: Option<Side>,
    rsi_ob: Side,
)
    ensures
        ({
            let s = spec_wave_signal(
                spec_crossed_up(prev_hist, hist),
                spec_left_below(prev_rsi_os, rsi_os),
                spec_crossed_down(prev_hist, hist),
                spec_left_above(prev_rsi_ob, rsi_ob),
            );
            &&& s == Signal::Long <==> ((prev_hist == Some(Side::Below) || prev_hist == Some(Side::At))
                && hist == Side::Above && prev_rsi_os == Some(Side::Below) && rsi_os == Side::Above)
            &&& s == Signal::Short <==> ((prev_hist == Some(Side::Above) || prev_hist == Some(Side::At))
                && hist == Side::Below && prev_rsi_ob == Some(Side::Above) && rsi_ob == Side::Below)
        }),
{
}

} // verus!
