use monsterfi::backtest::BacktestRun;
use monsterfi::live::LiveTrader;
use monsterfi::signal::Side;
use monsterfi::sweep::ranking;
use monsterfi::trading::{ExitReason, Position};

fn run_with_bars(n: i64) -> BacktestRun {
    let mut run = BacktestRun::new();
    for t in 0..n {
        run.open_bar(1000 + t);
    }
    run
}

#[test]
fn backtest_waits_for_indicators() {
    let mut run = run_with_bars(34);
    assert!(!run.enter(Position::Long));
    run.open_bar(2000);
    assert!(run.enter(Position::Long));
    assert_eq!(run.position(), Position::Long);
    assert!(!run.enter(Position::Short));
}

#[test]
fn backtest_trades_close_and_never_reopen_on_the_same_bar() {
    let mut run = run_with_bars(35);
    assert!(run.enter(Position::Short));
    assert_eq!(run.exit(false, false, Side::Above), None);
    run.open_bar(5000);
    let t = run.exit(false, true, Side::Above).unwrap();
    assert_eq!(t.direction, Position::Short);
    assert_eq!(t.entry_time, 1034);
    assert_eq!(t.exit_time, 5000);
    assert_eq!(t.reason, ExitReason::TakeProfit);
    assert!(!run.enter(Position::Long));
    run.open_bar(6000);
    assert!(run.enter(Position::Long));
    let t2 = run.exit(true, true, Side::Below).unwrap();
    assert_eq!(t2.reason, ExitReason::TrailingStop);
    assert_eq!(t2.entry_time, 6000);
    run.open_bar(7000);
    assert!(run.enter(Position::Long));
    run.open_bar(8000);
    let s = run.finish(Side::At);
    assert_eq!(s.total, 3);
    assert_eq!(s.trades.len(), 3);
    assert_eq!(s.winning, 1);
    assert_eq!(s.losing, 2);
    assert_eq!(s.trades[2].reason, ExitReason::EndOfPeriod);
    assert_eq!(s.trades[2].entry_time, 7000);
    assert_eq!(s.trades[2].exit_time, 8000);
}

#[test]
fn backtest_finish_when_flat_adds_nothing() {
    let run = run_with_bars(40);
    let s = run.finish(Side::Above);
    assert_eq!(s.total, 0);
    assert_eq!(s.winning, 0);
    assert_eq!(s.losing, 0);
    assert!(s.trades.is_empty());
}

#[test]
fn live_orders_alternate() {
    let mut trader = LiveTrader::new("SOLUSDT", 20);
    assert!(trader.close(1, ExitReason::StopLoss).is_none());
    assert!(trader.open(Position::Flat, 1).is_none());
    let e = trader.open(Position::Short, 2).unwrap();
    assert_eq!(e.asset, "SOL");
    assert!(!e.is_buy);
    assert!(!e.reduce_only);
    assert_eq!(e.leverage, Some(20));
    assert!(trader.open(Position::Long, 3).is_none());
    let x = trader.close(4, ExitReason::TrailingStop).unwrap();
    assert_eq!(x.asset, "SOL");
    assert!(x.is_buy);
    assert!(x.reduce_only);
    assert_eq!(x.leverage, None);
    assert_eq!(trader.position(), Position::Flat);
    let e2 = trader.open(Position::Long, 5).unwrap();
    assert!(e2.is_buy);
}

#[test]
fn ranking_is_stable_and_descending() {
    assert_eq!(ranking(&vec![3, 9, 3, 1, 9]), vec![1, 4, 0, 2, 3]);
    assert_eq!(ranking(&vec![]), Vec::<usize>::new());
    assert_eq!(ranking(&vec![5, 5, 5]), vec![0, 1, 2]);
    assert_eq!(ranking(&vec![1, 2, 3]), vec![2, 1, 0]);
}
