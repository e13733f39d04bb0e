//! TradeOS core library: domain types and ports, the deterministic
//! execution core (idempotency guard, order router, simulated broker,
//! multi-account dispatch), bar aggregation and resampling, and the
//! byte-level framing of the broker bridge protocols.

pub mod binance;
pub mod bus;
mod clock;
pub mod ctrader;
pub mod desktop;
pub mod domain;
pub mod execution;
pub mod indicators;
pub mod market_data;
pub mod mt5;
pub mod notify;
pub mod runs;
pub mod strings;
pub mod tradingview;
