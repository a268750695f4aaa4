//! The bar-by-bar engine of a backtest: which bars may open a trade, when
//! trades close, and the trade list with its win count.  Prices, returns
//! and balances stay with the caller, which reports each comparison as a
//! [`Side`].

use vstd::prelude::*;

use crate::indicators::MACD_MIN_SAMPLES;
use crate::signal::Side;
use crate::trading::{exit_reason, spec_exit, ClosedTrade, ExitReason, Position};

verus! {

/// How many of `wins` are true.
pub open spec fn count_wins(wins: Seq<bool>) -> nat
    decreases wins.len(),
{
    if wins.len() == 0 {
        0
    } else {
        count_wins(wins.drop_last()) + if wins.last() {
            1nat
        } else {
            0nat
        }
    }
}

/// An exit reason a backtest uses while it runs: it has no hard stop-loss,
/// and the end of the period is only for the last trade.
pub open spec fn running_reason(r: ExitReason) -> bool {
    r == ExitReason::TrailingStop || r == ExitReason::TakeProfit
}

/// The trade list of a backtest over bars with times `times`: trade `i`
/// opened at bar `spans[i].0` and closed at bar `spans[i].1` (bar numbers
/// count from 0 in the order the bars came).
/// - no trade opens before the indicators are ready (bar 34 onwards);
/// - a trade opens and closes at bars that were seen, and takes their times;
/// - every trade has a direction;
/// - a trade closes before the next one opens, at an earlier bar;
/// - every trade closed by the trailing stop or the take-profit, except
///   that, when `finished`, the last one may close at the end of the
///   period, and then at the last bar.
pub open spec fn sound_trades(trades: Seq<ClosedTrade>, spans: Seq<(int, int)>, times: Seq<i64>, finished: bool) -> bool {
    &&& trades.len() == spans.len()
    &&& forall|i: int| 0 <= i < spans.len() ==> #[trigger] sound_trade(trades, spans, times, finished, i)
}

/// Trade `i` of the list, as [`sound_trades`] describes it.
pub open spec fn sound_trade(trades: Seq<ClosedTrade>, spans: Seq<(int, int)>, times: Seq<i64>, finished: bool, i: int) -> bool {
    &&& MACD_MIN_SAMPLES - 1 <= spans[i].0 <= spans[i].1 < times.len()
    &&& trades[i].entry_time == times[spans[i].0]
    &&& trades[i].exit_time == times[spans[i].1]
    &&& trades[i].direction != Position::Flat
    &&& (i + 1 < spans.len() ==> spans[i].1 < spans[i + 1].0)
    &&& if finished && i == spans.len() - 1 {
        running_reason(trades[i].reason) || (trades[i].reason == ExitReason::EndOfPeriod && spans[i].1
            == times.len() - 1)
    } else {
        running_reason(trades[i].reason)
    }
}

/// The outcome of a backtest's bookkeeping: the trades in order, how many
/// there are, and how many won.
pub struct BacktestSummary {
    pub trades: Vec<ClosedTrade>,
    pub total: usize,
    pub winning: usize,
    pub losing: usize,
}

/// The state of a running backtest.
pub struct BacktestRun {
    bars: usize,
    current_time: i64,
    position: Position,
    entry_time: i64,
    last_exit_bar: Option<usize>,
    trades: Vec<ClosedTrade>,
    winning: usize,
    times: Ghost<Seq<i64>>,
    spans: Ghost<Seq<(int, int)>>,
    wins: Ghost<Seq<bool>>,
    open_bar: Ghost<int>,
}

impl BacktestRun {
    #[verifier::type_invariant]
    spec fn well_kept(self) -> bool {
        &&& self.bars == self.times@.len()
        &&& (self.bars > 0 ==> self.current_time == self.times@.last())
        &&& sound_trades(self.trades@, self.spans@, self.times@, false)
        &&& self.wins@.len() == self.trades@.len()
        &&& self.winning == count_wins(self.wins@)
        &&& self.winning <= self.trades@.len()
        &&& self.last_exit_bar == (if self.spans@.len() == 0 {
            None::<usize>
        } else {
            Some(self.spans@.last().1 as usize)
        })
        &&& (self.position != Position::Flat ==> {
            &&& MACD_MIN_SAMPLES - 1 <= self.open_bar@ < self.times@.len()
            &&& self.entry_time == self.times@[self.open_bar@]
            &&& (self.spans@.len() > 0 ==> self.spans@.last().1 < self.open_bar@)
        })
    }

    /// The time of every bar seen so far, in order.
    pub closed spec fn times(&self) -> Seq<i64> {
        self.times@
    }

    /// The trades closed so far.
    pub closed spec fn trades(&self) -> Seq<ClosedTrade> {
        self.trades@
    }

    /// The bars at which each closed trade opened and closed.
    pub closed spec fn spans(&self) -> Seq<(int, int)> {
        self.spans@
    }

    /// For each closed trade, whether it won.
    pub closed spec fn wins(&self) -> Seq<bool> {
        self.wins@
    }

    pub closed spec fn spec_position(&self) -> Position {
        self.position
    }

    pub closed spec fn spec_entry_time(&self) -> i64 {
        self.entry_time
    }

    /// The bar at which the open trade, if any, opened.
    pub closed spec fn spec_open_bar(&self) -> int {
        self.open_bar@
    }

    /// The trades closed so far followed by the open one, if any, closed at
    /// the last bar for the end of the period; the bars of each.
    pub open spec fn final_trades(&self) -> Seq<ClosedTrade> {
        if self.spec_position() == Position::Flat {
            self.trades()
        } else {
            self.trades().push(
                ClosedTrade {
                    direction: self.spec_position(),
                    entry_time: self.spec_entry_time(),
                    exit_time: self.times().last(),
                    reason: ExitReason::EndOfPeriod,
                },
            )
        }
    }

    pub open spec fn final_spans(&self) -> Seq<(int, int)> {
        if self.spec_position() == Position::Flat {
            self.spans()
        } else {
            self.spans().push((self.spec_open_bar(), self.times().len() - 1))
        }
    }

    /// A backtest that has seen no bar.
    pub fn new() -> (r: BacktestRun)
        ensures
            r.times() == Seq::<i64>::empty(),
            r.trades() == Seq::<ClosedTrade>::empty(),
            r.spans() == Seq::<(int, int)>::empty(),
            r.wins() == Seq::<bool>::empty(),
            r.spec_position() == Position::Flat,
    {
        BacktestRun {
            bars: 0,
            current_time: 0,
            position: Position::Flat,
            entry_time: 0,
            last_exit_bar: None,
            trades: Vec::new(),
            winning: 0,
            times: Ghost(Seq::empty()),
            spans: Ghost(Seq::empty()),
            wins: Ghost(Seq::empty()),
            open_bar: Ghost(0),
        }
    }

    pub fn position(&self) -> (p: Position)
        ensures
            p == self.spec_position(),
            sound_trades(self.trades(), self.spans(), self.times(), false),
    {
        proof {
            use_type_invariant(self);
        }
        self.position
    }

    /// Starts the next bar, at `time`.
    pub fn open_bar(&mut self, time: i64)
        requires
            old(self).times().len() < usize::MAX,
        ensures
            final(self).times() == old(self).times().push(time),
            final(self).trades() == old(self).trades(),
            final(self).spans() == old(self).spans(),
            final(self).wins() == old(self).wins(),
            final(self).spec_position() == old(self).spec_position(),
            final(self).spec_entry_time() == old(self).spec_entry_time(),
    {
        proof {
            use_type_invariant(&*self);
        }
        let mut run = BacktestRun::new();
        std::mem::swap(&mut run, self);
        let BacktestRun { bars, current_time, position, entry_time, last_exit_bar, trades, winning, times, spans, wins, open_bar } = run;
        let ghost t2 = times@.push(time);
        proof {
            assert(sound_trades(trades@, spans@, times@, false));
            assert forall|i: int| 0 <= i < spans@.len() implies #[trigger] sound_trade(trades@, spans@, t2, false, i) by {
                assert(sound_trade(trades@, spans@, times@, false, i));
            }
            if position != Position::Flat {
                assert(t2[open_bar@] == times@[open_bar@]);
            }
            assert(sound_trades(trades@, spans@, t2, false));
            assert(t2.last() == time);
        }
        *self = BacktestRun {
            bars: bars + 1,
            current_time: time,
            position,
            entry_time,
            last_exit_bar,
            trades,
            winning,
            times: Ghost(t2),
            spans,
            wins,
            open_bar,
        };
    }

    /// The entry check of the current bar: a flat backtest opens `decision`
    /// when it is a direction, the indicators are ready (at least
    /// [`MACD_MIN_SAMPLES`] bars seen) and no trade closed at this bar (a
    /// bar's entry check comes before its exit check).  Returns whether a
    /// trade opened; it takes the bar's time.
    pub fn enter(&mut self, decision: Position) -> (opened: bool)
        requires
            old(self).times().len() > 0,
        ensures
            opened == (old(self).spec_position() == Position::Flat && decision != Position::Flat
                && old(self).times().len() >= MACD_MIN_SAMPLES && !(old(self).spans().len() > 0
                && old(self).spans().last().1 == old(self).times().len() - 1)),
            opened ==> final(self).spec_position() == decision && final(self).spec_entry_time()
                == old(self).times().last(),
            !opened ==> final(self).spec_position() == old(self).spec_position()
                && final(self).spec_entry_time() == old(self).spec_entry_time(),
            final(self).times() == old(self).times(),
            final(self).trades() == old(self).trades(),
            final(self).spans() == old(self).spans(),
            final(self).wins() == old(self).wins(),
    {
        proof {
            use_type_invariant(&*self);
        }
        proof {
            if self.spans@.len() > 0 {
                assert(sound_trade(self.trades@, self.spans@, self.times@, false, self.spans@.len() - 1));
            }
        }
        let current = self.bars - 1;
        let closed_here = match self.last_exit_bar {
            Some(b) => b == current,
            None => false,
        };
        if self.position == Position::Flat && decision != Position::Flat && self.bars >= MACD_MIN_SAMPLES
            && !closed_here {
            let mut run = BacktestRun::new();
            std::mem::swap(&mut run, self);
            let BacktestRun { bars, current_time, position, entry_time, last_exit_bar, trades, winning, times, spans, wins, open_bar } = run;
            let ghost ob = current as int;
            *self = BacktestRun {
                bars,
                current_time,
                position: decision,
                entry_time: current_time,
                last_exit_bar,
                trades,
                winning,
                times,
                spans,
                wins,
                open_bar: Ghost(ob),
            };
            true
        } else {
            false
        }
    }
}

impl BacktestRun {
    /// The exit check of the current bar: an open trade closes at this bar
    /// for the first of trailing stop and take-profit that is hit (a
    /// backtest has no hard stop-loss).  `pnl_vs_zero` compares the trade's
    /// return at this bar with zero; the trade wins when it is above.
    pub fn exit(&mut self, trailing: bool, take_profit: bool, pnl_vs_zero: Side) -> (t: Option<ClosedTrade>)
        requires
            old(self).times().len() > 0,
            old(self).trades().len() < usize::MAX,
        ensures
            final(self).times() == old(self).times(),
            (old(self).spec_position() != Position::Flat && (trailing || take_profit)) ==> {
                &&& t == Some(
                    ClosedTrade {
                        direction: old(self).spec_position(),
                        entry_time: old(self).spec_entry_time(),
                        exit_time: old(self).times().last(),
                        reason: spec_exit(false, trailing, take_profit)->0,
                    },
                )
                &&& final(self).trades() == old(self).trades().push(t->0)
                &&& final(self).spans() == old(self).spans().push(
                    (old(self).spec_open_bar(), old(self).times().len() - 1),
                )
                &&& final(self).wins() == old(self).wins().push(pnl_vs_zero == Side::Above)
                &&& final(self).spec_position() == Position::Flat
            },
            !(old(self).spec_position() != Position::Flat && (trailing || take_profit)) ==> {
                &&& t is None
                &&& final(self).trades() == old(self).trades()
                &&& final(self).spans() == old(self).spans()
                &&& final(self).wins() == old(self).wins()
                &&& final(self).spec_position() == old(self).spec_position()
                &&& final(self).spec_entry_time() == old(self).spec_entry_time()
                &&& final(self).spec_open_bar() == old(self).spec_open_bar()
            },
    {
        proof {
            use_type_invariant(&*self);
        }
        let reason = match exit_reason(false, trailing, take_profit) {
            Some(r) => r,
            None => return None,
        };
        if self.position == Position::Flat {
            return None;
        }
        let mut run = BacktestRun::new();
        std::mem::swap(&mut run, self);
        let BacktestRun { bars, current_time, position, entry_time, last_exit_bar, mut trades, winning, times, spans, wins, open_bar } = run;
        let t = ClosedTrade { direction: position, entry_time, exit_time: current_time, reason };
        let ghost old_trades = trades@;
        trades.push(t);
        let won: usize = if pnl_vs_zero == Side::Above { 1 } else { 0 };
        let ghost sp = spans@.push((open_bar@, times@.len() - 1));
        let ghost ws = wins@.push(pnl_vs_zero == Side::Above);
        proof {
            assert(ws.drop_last() =~= wins@);
            assert(sound_trades(old_trades, spans@, times@, false));
            assert forall|i: int| 0 <= i < sp.len() implies #[trigger] sound_trade(trades@, sp, times@, false, i) by {
                if i < spans@.len() {
                    assert(sound_trade(old_trades, spans@, times@, false, i));
                    assert(trades@[i] == old_trades[i]);
                    assert(sp[i] == spans@[i]);
                }
            }
        }
        *self = BacktestRun {
            bars,
            current_time,
            position: Position::Flat,
            entry_time,
            last_exit_bar: Some(bars - 1),
            trades,
            winning: winning + won,
            times,
            spans: Ghost(sp),
            wins: Ghost(ws),
            open_bar,
        };
        Some(t)
    }

    /// Ends the backtest: a trade still open closes at the last bar for the
    /// end of the period.  `pnl_vs_zero` compares that trade's return with
    /// zero.  The summary lists [`BacktestRun::final_trades`] with their
    /// counts, and that list is sound in the sense of [`sound_trades`]:
    /// trades never overlap, none opens before bar 34, and only the last one
    /// can close for the end of the period, at the last bar.
    pub fn finish(self, pnl_vs_zero: Side) -> (s: BacktestSummary)
        requires
            self.times().len() > 0,
            self.trades().len() < usize::MAX,
        ensures
            s.trades@ == self.final_trades(),
            sound_trades(s.trades@, self.final_spans(), self.times(), true),
            s.total == s.trades@.len(),
            s.winning == count_wins(
                if self.spec_position() == Position::Flat {
                    self.wins()
                } else {
                    self.wins().push(pnl_vs_zero == Side::Above)
                },
            ),
            s.winning + s.losing == s.total,
    {
        proof {
            use_type_invariant(&self);
        }
        let BacktestRun { bars, current_time, position, entry_time, last_exit_bar, mut trades, winning, times, spans, wins, open_bar } = self;
        let ghost old_trades = trades@;
        proof {
            assert(sound_trades(old_trades, spans@, times@, false));
        }
        if position == Position::Flat {
            proof {
                assert forall|i: int| 0 <= i < spans@.len() implies #[trigger] sound_trade(trades@, spans@, times@, true, i) by {
                    assert(sound_trade(old_trades, spans@, times@, false, i));
                }
            }
            let total = trades.len();
            return BacktestSummary { trades, total, winning, losing: total - winning };
        }
        let t = ClosedTrade { direction: position, entry_time, exit_time: current_time, reason: ExitReason::EndOfPeriod };
        trades.push(t);
        let won: usize = if pnl_vs_zero == Side::Above { 1 } else { 0 };
        let ghost sp = spans@.push((open_bar@, times@.len() - 1));
        let ghost ws = wins@.push(pnl_vs_zero == Side::Above);
        proof {
            assert(ws.drop_last() =~= wins@);
            assert forall|i: int| 0 <= i < sp.len() implies #[trigger] sound_trade(trades@, sp, times@, true, i) by {
                if i < spans@.len() {
                    assert(sound_trade(old_trades, spans@, times@, false, i));
                    assert(trades@[i] == old_trades[i]);
                    assert(sp[i] == spans@[i]);
                }
            }
        }
        let total = trades.len();
        BacktestSummary { trades, total, winning: winning + won, losing: total - (winning + won) }
    }
}

} // verus!
