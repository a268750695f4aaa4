//! Verified decision core of the MonsterFi MACD+RSI trading agent.
//!
//! Everything here is discrete logic: which samples the indicators read,
//! how the price window slides, when a position is opened or closed, how a
//! parameter sweep enumerates its grid, how candle pages are read and how
//! symbols, dates and orders are derived.  Floating-point arithmetic lives
//! with the caller, which hands the library the outcome of each comparison
//! as a [`signal::Side`].

mod text;

pub mod window;
pub mod indicators;
pub mod signal;
pub mod trading;
pub mod sweep;
pub mod klines;
pub mod dates;
pub mod market;
pub mod backtest;
pub mod live;
