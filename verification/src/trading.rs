//! Positions and the rules that open and close them.

use vstd::prelude::*;

use crate::signal::{
    crossed_down, crossed_up, left_above, left_below, spec_crossed_down, spec_crossed_up,
    spec_left_above, spec_left_below, Side,
};

verus! {

/// Fewest candles a backtest runs on.
pub const MIN_CANDLES: usize = 50;

/// How many of the latest prices the agent keeps for its indicators.
pub const PRICE_WINDOW: usize = 500;

/// The direction of the open position, if any.
#[derive(Clone, Copy, Debug, PartialEq, Eq, Structural)]
pub enum Position {
    Flat,
    Long,
    Short,
}

/// Open long when both long conditions hold; otherwise short when both
/// short conditions hold; otherwise stay flat.
pub open spec fn spec_entry(bullish_cross: bool, long_filter: bool, bearish_cross: bool, short_filter: bool) -> Position {
    if bullish_cross && long_filter {
        Position::Long
    } else if bearish_cross && short_filter {
        Position::Short
    } else {
        Position::Flat
    }
}

impl Position {
    pub fn is_open(&self) -> (b: bool)
        ensures
            b == (*self != Position::Flat),
    {
        match self {
            Position::Flat => false,
            _ => true,
        }
    }

    pub fn is_long(&self) -> (b: bool)
        ensures
            b == (*self == Position::Long),
    {
        match self {
            Position::Long => true,
            _ => false,
        }
    }

    /// The position a flat book takes on one bar; see [`spec_entry`].
    pub fn open_on(bullish_cross: bool, long_filter: bool, bearish_cross: bool, short_filter: bool) -> (p: Position)
        ensures
            p == spec_entry(bullish_cross, long_filter, bearish_cross, short_filter),
    {
        if bullish_cross && long_filter {
            Position::Long
        } else if bearish_cross && short_filter {
            Position::Short
        } else {
            Position::Flat
        }
    }

    /// The direction written into a trade log: "Long" for a long position,
    /// "Short" otherwise.
    pub fn direction(&self) -> (s: &'static str)
        ensures
            *self == Position::Long ==> s@ == "Long"@,
            *self != Position::Long ==> s@ == "Short"@,
    {
        match self {
            Position::Long => "Long",
            _ => "Short",
        }
    }
}

/// The entry rule of the backtest.  `prev_hist` and `hist` compare the
/// previous and current MACD histogram with zero, a missing previous
/// histogram counting as zero; `rsi_os` and `rsi_ob` compare the RSI with
/// the oversold and overbought levels.  Long needs a bullish crossing with
/// the RSI below the oversold level; short a bearish crossing with the RSI
/// above the overbought level.
pub fn backtest_entry(prev_hist: Option<Side>, hist: Side, rsi_os: Side, rsi_ob: Side) -> (p: Position)
    ensures
        p == spec_entry(
            spec_crossed_up(Some(prev_hist.unwrap_or(Side::At)), hist),
            rsi_os == Side::Below,
            spec_crossed_down(Some(prev_hist.unwrap_or(Side::At)), hist),
            rsi_ob == Side::Above,
        ),
{
    let prev = Some(
        match prev_hist {
            Some(s) => s,
            None => Side::At,
        },
    );
    Position::open_on(
        crossed_up(prev, hist),
        rsi_os == Side::Below,
        crossed_down(prev, hist),
        rsi_ob == Side::Above,
    )
}

/// The entry rule of live trading (the RSI wave): the histogram crossing
/// as in [`backtest_entry`], but the RSI must have just left the oversold
/// zone for a long, or just left the overbought zone for a short.
/// `prev_rsi_os`/`rsi_os` compare the previous/current RSI with the
/// oversold level, `prev_rsi_ob`/`rsi_ob` with the overbought level.
pub fn wave_entry(
    prev_hist: Option<Side>,
    hist: Side,
    prev_rsi_os: Option<Side>,
    rsi_os: Side,
    prev_rsi_ob: Option<Side>,
    rsi_ob: Side,
) -> (p: Position)
    ensures
        p == spec_entry(
            spec_crossed_up(Some(prev_hist.unwrap_or(Side::At)), hist),
            spec_left_below(prev_rsi_os, rsi_os),
            spec_crossed_down(Some(prev_hist.unwrap_or(Side::At)), hist),
            spec_left_above(prev_rsi_ob, rsi_ob),
        ),
{
    let prev = Some(
        match prev_hist {
            Some(s) => s,
            None => Side::At,
        },
    );
    Position::open_on(
        crossed_up(prev, hist),
        left_below(prev_rsi_os, rsi_os),
        crossed_down(prev, hist),
        left_above(prev_rsi_ob, rsi_ob),
    )
}

/// Why a position was closed.
#[derive(Clone, Copy, Debug, PartialEq, Eq, Structural)]
pub enum ExitReason {
    StopLoss,
    TrailingStop,
    TakeProfit,
    EndOfPeriod,
    SignalReversal,
}

impl ExitReason {
    /// The reason as a trade log writes it.
    pub fn label(&self) -> (s: &'static str)
        ensures
            *self == ExitReason::StopLoss ==> s@ == "stop_loss"@,
            *self == ExitReason::TrailingStop ==> s@ == "trailing_stop"@,
            *self == ExitReason::TakeProfit ==> s@ == "take_profit"@,
            *self == ExitReason::EndOfPeriod ==> s@ == "end_of_period"@,
            *self == ExitReason::SignalReversal ==> s@ == "macd_rsi_exit"@,
    {
        match self {
            ExitReason::StopLoss => "stop_loss",
            ExitReason::TrailingStop => "trailing_stop",
            ExitReason::TakeProfit => "take_profit",
            ExitReason::EndOfPeriod => "end_of_period",
            ExitReason::SignalReversal => "macd_rsi_exit",
        }
    }
}

/// A stop is hit when the price reaches it against the position: at or
/// below it for a long, at or above it for a short.  `price_vs_stop`
/// compares the price with the stop level.
pub open spec fn spec_stop_hit(is_long: bool, price_vs_stop: Side) -> bool {
    if is_long {
        price_vs_stop.spec_at_most()
    } else {
        price_vs_stop.spec_at_least()
    }
}

#[verifier::when_used_as_spec(spec_stop_hit)]
pub fn stop_hit(is_long: bool, price_vs_stop: Side) -> (b: bool)
    ensures
        b == spec_stop_hit(is_long, price_vs_stop),
{
    if is_long {
        price_vs_stop.at_most()
    } else {
        price_vs_stop.at_least()
    }
}

/// The take-profit is hit when the position's return reaches the target;
/// `pnl_vs_target` compares the return with the target.
pub fn take_profit_hit(pnl_vs_target: Side) -> (b: bool)
    ensures
        b == pnl_vs_target.spec_at_least(),
{
    pnl_vs_target.at_least()
}

/// The first exit that applies, checked in the order hard stop-loss,
/// trailing stop, take-profit.
pub open spec fn spec_exit(stop_loss: bool, trailing: bool, take_profit: bool) -> Option<ExitReason> {
    if stop_loss {
        Some(ExitReason::StopLoss)
    } else if trailing {
        Some(ExitReason::TrailingStop)
    } else if take_profit {
        Some(ExitReason::TakeProfit)
    } else {
        None
    }
}

pub fn exit_reason(stop_loss: bool, trailing: bool, take_profit: bool) -> (r: Option<ExitReason>)
    ensures
        r == spec_exit(stop_loss, trailing, take_profit),
{
    if stop_loss {
        Some(ExitReason::StopLoss)
    } else if trailing {
        Some(ExitReason::TrailingStop)
    } else if take_profit {
        Some(ExitReason::TakeProfit)
    } else {
        None
    }
}

/// Whether a backtest has enough candles to run.
pub fn enough_candles(n: usize) -> (b: bool)
    ensures
        b == (n >= MIN_CANDLES),
{
    n >= MIN_CANDLES
}

/// What the long-only MACD+RSI strategy asks for on one evaluation.
#[derive(Clone, Copy, Debug, PartialEq, Eq, Structural)]
pub enum Decision {
    EnterLong,
    Exit(ExitReason),
}

/// One evaluation of the long-only MACD+RSI strategy, once both indicators
/// have a reading.  `in_position` says whether it holds a position.
/// While in a position it exits, in this order, on its trailing stop
/// (`trailing_hit`), on its stop-loss (`loss_vs_stop` compares the loss in
/// percent with the negated stop-loss level) and on its take-profit
/// (`profit_vs_target` compares the profit with the target); these exits
/// leave `in_position` as it was.  Flat, it enters long on a bullish
/// histogram crossing (a missing previous histogram counting as zero) with
/// the RSI below the oversold level, when the risk check passes
/// (`risk_ok`).  In a position, a bearish crossing with the RSI above the
/// overbought level exits and leaves it flat.  The result is the new
/// `in_position` and the decision, if any.
pub open spec fn spec_evaluate(
    in_position: bool,
    trailing_hit: bool,
    loss_vs_stop: Side,
    profit_vs_target: Side,
    prev_hist: Option<Side>,
    hist: Side,
    rsi_os: Side,
    rsi_ob: Side,
    risk_ok: bool,
) -> (bool, Option<Decision>) {
    let prev = Some(prev_hist.unwrap_or(Side::At));
    if in_position && trailing_hit {
        (true, Some(Decision::Exit(ExitReason::TrailingStop)))
    } else if in_position && loss_vs_stop.spec_at_most() {
        (true, Some(Decision::Exit(ExitReason::StopLoss)))
    } else if in_position && profit_vs_target.spec_at_least() {
        (true, Some(Decision::Exit(ExitReason::TakeProfit)))
    } else if !in_position && spec_crossed_up(prev, hist) && rsi_os == Side::Below && risk_ok {
        (true, Some(Decision::EnterLong))
    } else if in_position && spec_crossed_down(prev, hist) && rsi_ob == Side::Above {
        (false, Some(Decision::Exit(ExitReason::SignalReversal)))
    } else {
        (in_position, None)
    }
}

pub fn evaluate_step(
    in_position: bool,
    trailing_hit: bool,
    loss_vs_stop: Side,
    profit_vs_target: Side,
    prev_hist: Option<Side>,
    hist: Side,
    rsi_os: Side,
    rsi_ob: Side,
    risk_ok: bool,
) -> (r: (bool, Option<Decision>))
    ensures
        r == spec_evaluate(
            in_position,
            trailing_hit,
            loss_vs_stop,
            profit_vs_target,
            prev_hist,
            hist,
            rsi_os,
            rsi_ob,
            risk_ok,
        ),
{
    let prev = Some(
        match prev_hist {
            Some(s) => s,
            None => Side::At,
        },
    );
    if in_position && trailing_hit {
        (true, Some(Decision::Exit(ExitReason::TrailingStop)))
    } else if in_position && loss_vs_stop.at_most() {
        (true, Some(Decision::Exit(ExitReason::StopLoss)))
    } else if in_position && profit_vs_target.at_least() {
        (true, Some(Decision::Exit(ExitReason::TakeProfit)))
    } else if !in_position && crossed_up(prev, hist) && rsi_os == Side::Below && risk_ok {
        (true, Some(Decision::EnterLong))
    } else if in_position && crossed_down(prev, hist) && rsi_ob == Side::Above {
        (false, Some(Decision::Exit(ExitReason::SignalReversal)))
    } else {
        (in_position, None)
    }
}

/// A trade that has been closed: its direction, when it was opened and
/// closed, and why.
#[derive(Clone, Copy, Debug, PartialEq, Eq, Structural)]
pub struct ClosedTrade {
    pub direction: Position,
    pub entry_time: i64,
    pub exit_time: i64,
    pub reason: ExitReason,
}

/// One step in the life of a book: a position opened (its direction and
/// time) or closed (why and when).
#[derive(Clone, Copy, Debug, PartialEq, Eq, Structural)]
pub enum BookEvent {
    Opened(Position, i64),
    Closed(ExitReason, i64),
}

/// The history of a book that goes on trading: events alternate, starting
/// with an opening, every opening has a direction, and no closing is for
/// the end of the period (that one ends the book, see [`Book::finish`]).
pub open spec fn sound_history(h: Seq<BookEvent>) -> bool {
    forall|i: int|
        0 <= i < h.len() ==> match #[trigger] h[i] {
            BookEvent::Opened(p, _) => i % 2 == 0 && p != Position::Flat,
            BookEvent::Closed(r, _) => i % 2 == 1 && r != ExitReason::EndOfPeriod,
        }
}

/// An event that continues a sound history keeps it sound: an opening with
/// a direction after an even number of events, or a closing (not for the
/// end of the period) after an odd number.
proof fn lemma_sound_push(h: Seq<BookEvent>, e: BookEvent)
    requires
        sound_history(h),
        match e {
            BookEvent::Opened(p, _) => h.len() % 2 == 0 && p != Position::Flat,
            BookEvent::Closed(r, _) => h.len() % 2 == 1 && r != ExitReason::EndOfPeriod,
        },
    ensures
        sound_history(h.push(e)),
{
    let h2 = h.push(e);
    assert forall|i: int| 0 <= i < h2.len() implies match #[trigger] h2[i] {
        BookEvent::Opened(p, _) => i % 2 == 0 && p != Position::Flat,
        BookEvent::Closed(r, _) => i % 2 == 1 && r != ExitReason::EndOfPeriod,
    } by {
        if i < h.len() {
            assert(h2[i] == h[i]);
        }
    }
}

/// The agent's book: the open position, if any, and when it was opened,
/// with the history of its openings and closings.
pub struct Book {
    position: Position,
    entry_time: i64,
    history: Ghost<Seq<BookEvent>>,
}

impl Book {
    #[verifier::type_invariant]
    spec fn well_kept(self) -> bool {
        &&& sound_history(self.history@)
        &&& (self.position != Position::Flat <==> self.history@.len() % 2 == 1)
        &&& (self.position != Position::Flat ==> self.history@.last() == BookEvent::Opened(
            self.position,
            self.entry_time,
        ))
    }

    pub closed spec fn spec_position(&self) -> Position {
        self.position
    }

    pub closed spec fn spec_entry_time(&self) -> i64 {
        self.entry_time
    }

    /// Every opening and closing so far, oldest first.
    pub closed spec fn history(&self) -> Seq<BookEvent> {
        self.history@
    }

    /// A flat book with no history.
    pub fn new() -> (b: Book)
        ensures
            b.spec_position() == Position::Flat,
            b.history() == Seq::<BookEvent>::empty(),
    {
        Book { position: Position::Flat, entry_time: 0, history: Ghost(Seq::empty()) }
    }

    pub fn position(&self) -> (p: Position)
        ensures
            p == self.spec_position(),
            sound_history(self.history()),
            p != Position::Flat <==> self.history().len() % 2 == 1,
    {
        proof {
            use_type_invariant(self);
        }
        self.position
    }

    pub fn entry_time(&self) -> (t: i64)
        ensures
            t == self.spec_entry_time(),
    {
        self.entry_time
    }

    /// Opens `decision` at `time` when the book is flat and the decision is
    /// a direction; returns whether a position was opened.  An open book is
    /// left as it is.
    pub fn enter(&mut self, decision: Position, time: i64) -> (opened: bool)
        ensures
            opened == (old(self).spec_position() == Position::Flat && decision != Position::Flat),
            opened ==> final(self).spec_position() == decision && final(self).spec_entry_time() == time
                && final(self).history() == old(self).history().push(BookEvent::Opened(decision, time)),
            !opened ==> final(self).spec_position() == old(self).spec_position()
                && final(self).spec_entry_time() == old(self).spec_entry_time()
                && final(self).history() == old(self).history(),
            sound_history(final(self).history()),
    {
        proof {
            use_type_invariant(&*self);
        }
        if self.position == Position::Flat && decision != Position::Flat {
            let ghost h = self.history@.push(BookEvent::Opened(decision, time));
            proof {
                lemma_sound_push(self.history@, BookEvent::Opened(decision, time));
            }
            *self = Book { position: decision, entry_time: time, history: Ghost(h) };
            true
        } else {
            false
        }
    }

    /// Closes the open position at `time` for `reason` (any reason but the
    /// end of the period, which [`Book::finish`] gives) and returns the
    /// trade; on a flat book there is nothing to close.  Either way the book
    /// is flat afterwards.
    pub fn close(&mut self, time: i64, reason: ExitReason) -> (t: Option<ClosedTrade>)
        requires
            reason != ExitReason::EndOfPeriod,
        ensures
            final(self).spec_position() == Position::Flat,
            old(self).spec_position() == Position::Flat ==> t is None && final(self).history()
                == old(self).history(),
            old(self).spec_position() != Position::Flat ==> t == Some(
                ClosedTrade {
                    direction: old(self).spec_position(),
                    entry_time: old(self).spec_entry_time(),
                    exit_time: time,
                    reason,
                },
            ) && final(self).history() == old(self).history().push(BookEvent::Closed(reason, time)),
            sound_history(final(self).history()),
    {
        proof {
            use_type_invariant(&*self);
        }
        if self.position == Position::Flat {
            None
        } else {
            let t = ClosedTrade { direction: self.position, entry_time: self.entry_time, exit_time: time, reason };
            let ghost h = self.history@.push(BookEvent::Closed(reason, time));
            proof {
                lemma_sound_push(self.history@, BookEvent::Closed(reason, time));
            }
            *self = Book { position: Position::Flat, entry_time: self.entry_time, history: Ghost(h) };
            Some(t)
        }
    }


    /// Ends the book at the end of the period: a position still open is
    /// closed at `time` for that reason.  The book is used up, so this is
    /// the last trade it gives.
    pub fn finish(self, time: i64) -> (t: Option<ClosedTrade>)
        ensures
            self.spec_position() == Position::Flat ==> t is None,
            self.spec_position() != Position::Flat ==> t == Some(
                ClosedTrade {
                    direction: self.spec_position(),
                    entry_time: self.spec_entry_time(),
                    exit_time: time,
                    reason: ExitReason::EndOfPeriod,
                },
            ),
    {
        if self.position == Position::Flat {
            None
        } else {
            Some(
                ClosedTrade {
                    direction: self.position,
                    entry_time: self.entry_time,
                    exit_time: time,
                    reason: ExitReason::EndOfPeriod,
                },
            )
        }
    }
}

/// In a book's history, every closing follows the opening of the trade it
/// ends, and a position is open exactly after an opening: trades never
/// overlap.
pub proof fn law_trades_do_not_overlap(h: Seq<BookEvent>, i: int)
    requires
        sound_history(h),
        0 <= i < h.len(),
    ensures
        h[i] is Opened ==> (i + 1 < h.len() ==> h[i + 1] is Closed),
        h[i] is Closed ==> h[i - 1] is Opened,
        h.len() % 2 == 1 ==> h.last() is Opened,
{
    if i + 1 < h.len() {
        let _ = h[i + 1];
    }
    if i >= 1 {
        let _ = h[i - 1];
    }
    if h.len() > 0 {
        let _ = h[h.len() - 1];
    }
    if h[i] is Closed {
        assert(i % 2 == 1);
        let _ = h[i - 1];
    }
}

/// The entry rule: long exactly when both long conditions hold, short
/// exactly when both short conditions hold and the long ones do not, flat
/// otherwise.
pub proof fn law_entry_needs_both(bullish_cross: bool, long_filter: bool, bearish_cross: bool, short_filter: bool)
    ensures
        (spec_entry(bullish_cross, long_filter, bearish_cross, short_filter) == Position::Long)
            <==> (bullish_cross && long_filter),
        (spec_entry(bullish_cross, long_filter, bearish_cross, short_filter) == Position::Short)
            <==> (bearish_cross && short_filter && !(bullish_cross && long_filter)),
        (spec_entry(bullish_cross, long_filter, bearish_cross, short_filter) == Position::Flat)
            <==> (!(bullish_cross && long_filter) && !(bearish_cross && short_filter)),
{
}

/// What [`backtest_entry`] opens, in terms of its inputs: long only with
/// the histogram now above zero after a reading at or below it (none counts
/// as zero) and the RSI below the oversold level; short only with the
/// histogram now below zero after a reading at or above it (none counts as
/// zero) and the RSI above the overbought level.  A histogram that is above
/// zero never opens a short, one below zero never opens a long, and one
/// at zero or unordered opens nothing.
pub proof fn law_backtest_entry_by_sides(prev_hist: Option<Side>, hist: Side, rsi_os: Side, rsi_ob: Side)
    ensures
        ({
            let p = spec_entry(
                spec_crossed_up(Some(prev_hist.unwrap_or(Side::At)), hist),
                rsi_os == Side::Below,
                spec_crossed_down(Some(prev_hist.unwrap_or(Side::At)), hist),
                rsi_ob == Side::Above,
            );
            &&& p == Position::Long <==> (prev_hist != Some(Side::Above) && prev_hist != Some(
                Side::Unordered,
            ) && hist == Side::Above && rsi_os == Side::Below)
            &&& p == Position::Short <==> (prev_hist != Some(Side::Below) && prev_hist != Some(
                Side::Unordered,
            ) && hist == Side::Below && rsi_ob == Side::Above)
            &&& (hist == Side::At || hist == Side::Unordered) ==> p == Position::Flat
        }),
{
}

/// What [`wave_entry`] opens, in terms of its inputs: the histogram as in
/// [`law_backtest_entry_by_sides`], and the RSI having just risen out of the
/// oversold zone for a long, or just fallen out of the overbought zone for
/// a short.
pub proof fn law_wave_entry_by_sides(
    prev_hist: Option<Side>,
    hist: Side,
    prev_rsi_os: Option<Side>,
    rsi_os: Side,
    prev_rsi_ob: Option<Side>,
    rsi_ob: Side,
)
    ensures
        ({
            let p = spec_entry(
                spec_crossed_up(Some(prev_hist.unwrap_or(Side::At)), hist),
                spec_left_below(prev_rsi_os, rsi_os),
                spec_crossed_down(Some(prev_hist.unwrap_or(Side::At)), hist),
                spec_left_above(prev_rsi_ob, rsi_ob),
            );
            &&& p == Position::Long <==> (prev_hist != Some(Side::Above) && prev_hist != Some(
                Side::Unordered,
            ) && hist == Side::Above && prev_rsi_os == Some(Side::Below) && rsi_os == Side::Above)
            &&& p == Position::Short <==> (prev_hist != Some(Side::Below) && prev_hist != Some(
                Side::Unordered,
            ) && hist == Side::Below && prev_rsi_ob == Some(Side::Above) && rsi_ob == Side::Below)
        }),
{
}

/// A stop is hit exactly when the price has reached it against the
/// position: at or below it for a long, at or above it for a short.  A
/// price on the profitable side, or unordered, never hits it.
pub proof fn law_stop_hit_by_side(is_long: bool, price_vs_stop: Side)
    ensures
        is_long ==> (spec_stop_hit(is_long, price_vs_stop) <==> (price_vs_stop == Side::Below
            || price_vs_stop == Side::At)),
        !is_long ==> (spec_stop_hit(is_long, price_vs_stop) <==> (price_vs_stop == Side::Above
            || price_vs_stop == Side::At)),
        price_vs_stop == Side::Unordered ==> !spec_stop_hit(is_long, price_vs_stop),
{
}

/// An exit happens exactly when at least one exit condition holds.  A hit
/// stop-loss always closes, whatever else holds; the trailing stop closes
/// when the stop-loss is not hit; the take-profit only when neither stop is.
pub proof fn law_exit_priority(stop_loss: bool, trailing: bool, take_profit: bool)
    ensures
        spec_exit(stop_loss, trailing, take_profit) is Some <==> (stop_loss || trailing || take_profit),
        stop_loss ==> spec_exit(stop_loss, trailing, take_profit) == Some(ExitReason::StopLoss),
        !stop_loss && trailing ==> spec_exit(stop_loss, trailing, take_profit) == Some(
            ExitReason::TrailingStop,
        ),
        !stop_loss && !trailing && take_profit ==> spec_exit(stop_loss, trailing, take_profit) == Some(
            ExitReason::TakeProfit,
        ),
        spec_exit(stop_loss, trailing, take_profit) != Some(ExitReason::EndOfPeriod),
        spec_exit(stop_loss, trailing, take_profit) != Some(ExitReason::SignalReversal),
{
}

/// The long-only strategy: it never enters while in a position, enters only
/// on an upward crossing (the histogram now above zero) with the RSI below
/// the oversold level and the risk check passed, and every exit happens in a
/// position; the stop exits keep it marked in position and only the signal
/// reversal (the histogram now below zero, the RSI above the overbought
/// level) leaves it flat.  Without a decision nothing changes.
pub proof fn law_evaluate_step(
    in_position: bool,
    trailing_hit: bool,
    loss_vs_stop: Side,
    profit_vs_target: Side,
    prev_hist: Option<Side>,
    hist: Side,
    rsi_os: Side,
    rsi_ob: Side,
    risk_ok: bool,
)
    ensures
        ({
            let r = spec_evaluate(
                in_position,
                trailing_hit,
                loss_vs_stop,
                profit_vs_target,
                prev_hist,
                hist,
                rsi_os,
                rsi_ob,
                risk_ok,
            );
            &&& r.1 == Some(Decision::EnterLong) ==> !in_position && risk_ok && hist == Side::Above
                && rsi_os == Side::Below && r.0
            &&& (r.1 matches Some(Decision::Exit(_))) ==> in_position
            &&& r.1 == Some(Decision::Exit(ExitReason::SignalReversal)) ==> hist == Side::Below && rsi_ob
                == Side::Above && !r.0
            &&& in_position && trailing_hit ==> r == (true, Some(Decision::Exit(ExitReason::TrailingStop)))
            &&& in_position && !trailing_hit && (loss_vs_stop == Side::Below || loss_vs_stop == Side::At)
                ==> r == (true, Some(Decision::Exit(ExitReason::StopLoss)))
            &&& in_position && !trailing_hit && !(loss_vs_stop == Side::Below || loss_vs_stop == Side::At)
                && (profit_vs_target == Side::Above || profit_vs_target == Side::At) ==> r == (
                true,
                Some(Decision::Exit(ExitReason::TakeProfit)),
            )
            &&& r.1 == Some(Decision::EnterLong) <==> (!in_position && risk_ok && prev_hist != Some(
                Side::Above,
            ) && prev_hist != Some(Side::Unordered) && hist == Side::Above && rsi_os == Side::Below)
            &&& r.1 == Some(Decision::Exit(ExitReason::SignalReversal)) <==> (in_position && !trailing_hit
                && !(loss_vs_stop == Side::Below || loss_vs_stop == Side::At) && !(profit_vs_target
                == Side::Above || profit_vs_target == Side::At) && prev_hist != Some(Side::Below)
                && prev_hist != Some(Side::Unordered) && hist == Side::Below && rsi_ob == Side::Above)
            &&& r.1 is None ==> r.0 == in_position
            &&& r.0 != in_position ==> r.1 is Some
        }),
{
}

/// A flat book opens at most one position per bar, and a long entry wins
/// over a short one when both are signalled.
pub proof fn law_entry_long_first(bullish_cross: bool, long_filter: bool, bearish_cross: bool, short_filter: bool)
    ensures
        bullish_cross && long_filter ==> spec_entry(bullish_cross, long_filter, bearish_cross, short_filter) == Position::Long,
        spec_entry(bullish_cross, long_filter, bearish_cross, short_filter) == Position::Short ==> bearish_cross && short_filter && !(bullish_cross && long_filter),
        spec_entry(bullish_cross, long_filter, bearish_cross, short_filter) == Position::Flat <==> !(bullish_cross && long_filter) && !(bearish_cross && short_filter),
{
}

} // verus!
