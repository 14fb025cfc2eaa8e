# sentinel

A mean-reversion trading agent for Kraken, with its logic verified in Verus.

- `src/` is the verified library: decimal arithmetic through `rust_decimal`
  (`decimal`), text helpers (`text`), the rolling z-score strategy and its
  trading zones (`strategy`), one round of the trading loop (`trading`), the
  market state (`state`), settings and pair rules (`configuration`), WebSocket
  ticker messages (`kraken_ws`), signed REST orders (`orders`) and the trade
  journal's records (`storage`).
- `app/` is the program around it: configuration loading, the WebSocket
  connection, HTTP requests, the sled journal, the async loops, and the square
  root of the variance, which is taken in floating point.
- `tests/` exercises the library.

Run with `RUST_LOG=info cargo run --release -- BTC/USD`; `KRAKEN_*`
environment variables override the defaults (dry run by default).
