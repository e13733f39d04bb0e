use vstd::prelude::*;

verus! {

/// Directional view carried by a signal.
#[derive(Debug, Copy, Clone, PartialEq, Eq, Hash, Structural)]
pub enum Direction {
    Long,
    Short,
    Flat,
}

/// Order side.
#[derive(Debug, Copy, Clone, PartialEq, Eq, Hash, Structural)]
pub enum Side {
    Buy,
    Sell,
}

#[derive(Debug, Copy, Clone, PartialEq, Eq, Hash, Structural)]
pub enum OrderType {
    Market,
    Limit,
    Stop,
}

#[derive(Debug, Copy, Clone, PartialEq, Eq, Hash, Structural)]
pub enum TimeInForce {
    Gtc,
    Ioc,
    Fok,
}

/// Risk profiles applied to the same code path, never separate strategy
/// implementations.
#[derive(Debug, Copy, Clone, PartialEq, Eq, Hash, Structural)]
pub enum TradingMode {
    Normal,
    Aggressive,
    Scalp,
    Paper,
}

#[derive(Debug, Copy, Clone, PartialEq, Eq, Hash, Structural)]
pub enum RegimeTag {
    Trending,
    Ranging,
    Expansion,
    HighVolChoppy,
}

/// Attribution for a signal: which agent, model artifact, or deterministic
/// rule produced it.
#[derive(Debug, Clone, PartialEq, Eq, Hash)]
pub enum SignalSource {
    Agent(String),
    Model(String),
    Rule(String),
}

} // verus!
