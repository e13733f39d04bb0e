//! TradingView market data: webhook alerts folded into bars, served through
//! the UDF datafeed protocol.

pub mod udf;
pub mod webhook;
pub mod store;
