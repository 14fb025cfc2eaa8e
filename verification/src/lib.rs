//! Sentinel: a mean-reversion trading agent for Kraken.
//!
//! The library holds the agent's logic, verified with Verus: decimal
//! arithmetic through `rust_decimal` (`decimal`), the rolling z-score strategy
//! and its trading zones (`strategy`), one round of the trading loop
//! (`trading`), the market state (`state`), settings and pair rules
//! (`configuration`), the WebSocket ticker messages (`kraken_ws`), signed REST
//! orders (`orders`) and the trade journal's records (`storage`).
pub mod decimal;
pub mod text;
pub mod strategy;
pub mod configuration;
pub mod state;
pub mod storage;
pub mod orders;
pub mod kraken_ws;
pub mod trading;
