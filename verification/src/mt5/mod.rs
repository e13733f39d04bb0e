//! The MT5 bridge: the market-data frame format, sequence-gap detection,
//! the order request/reply vocabulary, and the deterministic behaviour of
//! the bridge test double.

pub mod bridge;
pub mod protocol;
