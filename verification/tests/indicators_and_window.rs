use monsterfi::indicators::{ema_ready, macd_ready, rsi_window, MACD, MACD_MIN_SAMPLES, RSI};
use monsterfi::window::PriceWindow;

#[test]
fn macd_new_is_standard() {
    let m = MACD::new();
    assert_eq!(m.fast_period(), 12);
    assert_eq!(m.slow_period(), 26);
    assert!(!m.has_enough(34));
    assert!(m.has_enough(35));
}

#[test]
fn rsi_new_keeps_period() {
    let r = RSI::new(14);
    assert_eq!(r.period(), 14);
    assert_eq!(r.window(14), None);
    assert_eq!(r.window(15), Some((1, 15)));
    assert_eq!(r.window(100), Some((86, 100)));
}

#[test]
fn rsi_window_edges() {
    assert_eq!(rsi_window(0, 0), None);
    assert_eq!(rsi_window(1, 0), Some((1, 1)));
    assert_eq!(rsi_window(3, 3), None);
    assert_eq!(rsi_window(4, 3), Some((1, 4)));
}

#[test]
fn readiness_thresholds() {
    assert!(!ema_ready(0));
    assert!(ema_ready(1));
    assert_eq!(MACD_MIN_SAMPLES, 35);
    assert!(!macd_ready(34));
    assert!(macd_ready(35));
}

#[test]
fn window_drops_oldest_when_full() {
    let mut w: PriceWindow<u32> = PriceWindow::new(3);
    for x in 1..=5u32 {
        w.push(x);
    }
    assert_eq!(w.len(), 3);
    assert_eq!(w.to_vec(), vec![3, 4, 5]);
}

#[test]
fn window_keeps_everything_below_capacity() {
    let mut w: PriceWindow<f64> = PriceWindow::new(500);
    w.push(1.5);
    w.push(2.5);
    assert_eq!(w.to_vec(), vec![1.5, 2.5]);
}

#[test]
fn window_of_capacity_zero_stays_empty() {
    let mut w: PriceWindow<i64> = PriceWindow::new(0);
    w.push(7);
    assert_eq!(w.len(), 0);
}
