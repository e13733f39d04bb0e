//! Pure domain types and ports. No I/O, no randomness.

pub mod enums;
pub mod order;
pub mod ports;
pub mod signal;
pub mod tick;

pub use enums::{Direction, OrderType, RegimeTag, Side, SignalSource, TimeInForce, TradingMode};
pub use order::{BrokerOrderId, ExecEvent, OrderIntent, SignalIds};
pub use ports::{
    AccountSnapshot, Broker, DynBroker, FeedCaps, MarketDataSource, PortError, PortResult, PositionSnapshot, SymbolConstraints,
    SymbolSpec, Timeframe,
};
pub use signal::is_expired;
pub use tick::{Bar, SymbolId, Tick, TickFlags};
