# monsterfi

The decision core of the MonsterFi MACD+RSI trading agent, verified with
Verus, and the executable around it.

- `src/` — the verified library: indicator windows (`indicators`), the
  bounded price buffer (`window`), strategy signals (`signal`), positions,
  entries, exits, the trade book and the long-only strategy step
  (`trading`), the bar-by-bar backtest engine with its trade list
  (`backtest`), the live trader and its orders (`live`), the
  parameter-sweep grid and ranking (`sweep`), Binance intervals and kline pages (`klines`), period dates
  (`dates`), symbols and orders (`market`).
- `app/` — the command-line program: HTTP to Hyperliquid and Binance,
  the clock, floating-point indicator arithmetic, balances and reports.
  It hands the library the outcome of each floating-point comparison as a
  `Side` and follows the library's decisions.
- `tests/` — tests of the library on concrete values.
