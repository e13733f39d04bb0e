//! Ingest-stage logic: folding ticks into fixed-timeframe bars, and a
//! deterministic tick sequence to drive it without a live feed.

pub mod bar_aggregator;
pub mod simulated;

pub use bar_aggregator::BarAggregator;
pub use simulated::simulated_ticks;
