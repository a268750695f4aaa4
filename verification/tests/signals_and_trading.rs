use monsterfi::trading::{evaluate_step, Decision};
use monsterfi::signal::{crossed_down, crossed_up, left_above, left_below, wave_signal, Side, Signal};
use monsterfi::trading::{
    backtest_entry, enough_candles, exit_reason, stop_hit, take_profit_hit, wave_entry, Book,
    ExitReason, Position, MIN_CANDLES, PRICE_WINDOW,
};

#[test]
fn crossings() {
    assert!(crossed_up(Some(Side::Below), Side::Above));
    assert!(crossed_up(Some(Side::At), Side::Above));
    assert!(!crossed_up(None, Side::Above));
    assert!(!crossed_up(Some(Side::Unordered), Side::Above));
    assert!(crossed_down(Some(Side::Above), Side::Below));
    assert!(crossed_down(Some(Side::At), Side::Below));
    assert!(!crossed_down(Some(Side::Below), Side::Below));
}

#[test]
fn rsi_wave_zones() {
    assert!(left_below(Some(Side::Below), Side::Above));
    assert!(!left_below(Some(Side::At), Side::Above));
    assert!(!left_below(None, Side::Above));
    assert!(left_above(Some(Side::Above), Side::Below));
    assert!(!left_above(Some(Side::Above), Side::At));
}

#[test]
fn wave_signal_long_short_hold() {
    let long = wave_signal(Some(Side::Below), Side::Above, Some(Side::Below), Side::Above, Some(Side::Below), Side::Below);
    assert_eq!(long, Signal::Long);
    let short = wave_signal(Some(Side::Above), Side::Below, Some(Side::Above), Side::Above, Some(Side::Above), Side::Below);
    assert_eq!(short, Signal::Short);
    let hold = wave_signal(Some(Side::Below), Side::Above, Some(Side::At), Side::Above, None, Side::Below);
    assert_eq!(hold, Signal::Hold);
    assert_eq!(Signal::from_conditions(true, true, true, true), Signal::Long);
    assert_eq!(Signal::from_conditions(false, true, true, true), Signal::Short);
}

#[test]
fn backtest_entry_treats_missing_histogram_as_zero() {
    assert_eq!(backtest_entry(None, Side::Above, Side::Below, Side::Below), Position::Long);
    assert_eq!(backtest_entry(None, Side::Below, Side::Above, Side::Above), Position::Short);
    assert_eq!(backtest_entry(Some(Side::Above), Side::Above, Side::Below, Side::Below), Position::Flat);
    assert_eq!(backtest_entry(Some(Side::Below), Side::Above, Side::At, Side::Below), Position::Flat);
}

#[test]
fn wave_entry_needs_rsi_leaving_zone() {
    assert_eq!(
        wave_entry(None, Side::Above, Some(Side::Below), Side::Above, Some(Side::Below), Side::Below),
        Position::Long
    );
    assert_eq!(
        wave_entry(None, Side::Above, Some(Side::Below), Side::Below, Some(Side::Below), Side::Below),
        Position::Flat
    );
    assert_eq!(
        wave_entry(Some(Side::At), Side::Below, None, Side::Above, Some(Side::Above), Side::Below),
        Position::Short
    );
}

#[test]
fn exits_in_priority_order() {
    assert_eq!(exit_reason(true, true, true), Some(ExitReason::StopLoss));
    assert_eq!(exit_reason(false, true, true), Some(ExitReason::TrailingStop));
    assert_eq!(exit_reason(false, false, true), Some(ExitReason::TakeProfit));
    assert_eq!(exit_reason(false, false, false), None);
    assert_eq!(ExitReason::TrailingStop.label(), "trailing_stop");
    assert_eq!(ExitReason::TakeProfit.label(), "take_profit");
    assert_eq!(ExitReason::EndOfPeriod.label(), "end_of_period");
    assert_eq!(ExitReason::StopLoss.label(), "stop_loss");
}

#[test]
fn stops_and_targets() {
    assert!(stop_hit(true, Side::Below));
    assert!(stop_hit(true, Side::At));
    assert!(!stop_hit(true, Side::Above));
    assert!(stop_hit(false, Side::Above));
    assert!(!stop_hit(false, Side::Below));
    assert!(!stop_hit(false, Side::Unordered));
    assert!(take_profit_hit(Side::At));
    assert!(!take_profit_hit(Side::Below));
}

#[test]
fn positions_and_labels() {
    assert_eq!(Position::Long.direction(), "Long");
    assert_eq!(Position::Short.direction(), "Short");
    assert!(Position::Short.is_open());
    assert!(!Position::Flat.is_open());
    assert!(Position::Long.is_long());
    assert_eq!(Position::open_on(true, true, true, true), Position::Long);
    assert_eq!(Position::open_on(true, false, true, true), Position::Short);
    assert_eq!(MIN_CANDLES, 50);
    assert_eq!(PRICE_WINDOW, 500);
    assert!(!enough_candles(49));
    assert!(enough_candles(50));
}

#[test]
fn book_opens_once_and_closes_flat() {
    let mut book = Book::new();
    assert_eq!(book.close(5, ExitReason::TrailingStop), None);
    assert!(book.enter(Position::Long, 100));
    assert!(!book.enter(Position::Short, 200));
    assert_eq!(book.position(), Position::Long);
    assert_eq!(book.entry_time(), 100);
    let t = book.close(300, ExitReason::TakeProfit).unwrap();
    assert_eq!(t.direction, Position::Long);
    assert_eq!(t.entry_time, 100);
    assert_eq!(t.exit_time, 300);
    assert_eq!(t.reason, ExitReason::TakeProfit);
    assert_eq!(book.position(), Position::Flat);
    assert!(!book.enter(Position::Flat, 400));
}


#[test]
fn crossings_never_both() {
    let sides = [Side::Below, Side::At, Side::Above, Side::Unordered];
    for prev in sides.iter().map(|s| Some(*s)).chain(std::iter::once(None)) {
        for cur in sides {
            assert!(!(crossed_up(prev, cur) && crossed_down(prev, cur)));
        }
    }
}

#[test]
fn finish_closes_open_book_at_period_end() {
    let mut book = Book::new();
    assert!(book.enter(Position::Short, 10));
    let t = book.finish(99).unwrap();
    assert_eq!(t.direction, Position::Short);
    assert_eq!(t.entry_time, 10);
    assert_eq!(t.exit_time, 99);
    assert_eq!(t.reason, ExitReason::EndOfPeriod);
    let mut flat = Book::new();
    assert!(flat.enter(Position::Long, 1));
    assert!(flat.close(2, ExitReason::StopLoss).is_some());
    assert_eq!(flat.finish(3), None);
}

#[test]
fn long_only_strategy_steps() {
    let flat_entry = evaluate_step(false, false, Side::Above, Side::Below, None, Side::Above, Side::Below, Side::Below, true);
    assert_eq!(flat_entry, (true, Some(Decision::EnterLong)));
    let risk_refused = evaluate_step(false, false, Side::Above, Side::Below, None, Side::Above, Side::Below, Side::Below, false);
    assert_eq!(risk_refused, (false, None));
    let trailing = evaluate_step(true, true, Side::Below, Side::Above, None, Side::Below, Side::Above, Side::Above, true);
    assert_eq!(trailing, (true, Some(Decision::Exit(ExitReason::TrailingStop))));
    let stop = evaluate_step(true, false, Side::At, Side::Above, None, Side::Below, Side::Above, Side::Above, true);
    assert_eq!(stop, (true, Some(Decision::Exit(ExitReason::StopLoss))));
    let target = evaluate_step(true, false, Side::Above, Side::At, None, Side::Below, Side::Above, Side::Above, true);
    assert_eq!(target, (true, Some(Decision::Exit(ExitReason::TakeProfit))));
    let reversal = evaluate_step(true, false, Side::Above, Side::Below, Some(Side::Above), Side::Below, Side::Above, Side::Above, true);
    assert_eq!(reversal, (false, Some(Decision::Exit(ExitReason::SignalReversal))));
    assert_eq!(ExitReason::SignalReversal.label(), "macd_rsi_exit");
    let nothing = evaluate_step(true, false, Side::Above, Side::Below, Some(Side::Below), Side::Below, Side::Above, Side::Above, true);
    assert_eq!(nothing, (true, None));
}
