//! Binance adapter placeholder: it satisfies both ports and refuses every
//! operation, so wiring it in can never transmit anything.

use vstd::prelude::*;

use crate::domain::{
    AccountSnapshot, Bar, Broker, BrokerOrderId, ExecEvent, FeedCaps, MarketDataSource, OrderIntent, PortError,
    PortResult, PositionSnapshot, SymbolConstraints, SymbolId, SymbolSpec, Tick, Timeframe,
};

verus! {

pub struct BinanceMarketData;

pub struct BinanceBroker;

/// The refusal every unimplemented Binance request gets.
pub open spec fn not_implemented(e: PortError) -> bool {
    e matches PortError::Adapter(msg) && msg@ == "Binance adapter not implemented yet (Phase 8)"@
}

fn not_implemented_error() -> (e: PortError)
    ensures
        not_implemented(e),
{
    PortError::Adapter("Binance adapter not implemented yet (Phase 8)".to_owned())
}

impl MarketDataSource for BinanceMarketData {
    fn subscribe(&mut self, symbols: &[SymbolSpec]) -> (r: PortResult<()>)
        ensures
            r matches Err(e) && not_implemented(e),
    {
        Err(not_implemented_error())
    }

    fn poll_tick(&mut self) -> (r: Option<Tick>)
        ensures
            r is None,
    {
        None
    }

    fn history(&self, sym: SymbolId, tf: Timeframe, from_ns: u64, to_ns: u64) -> (r: PortResult<Vec<Bar>>)
        ensures
            r matches Err(e) && not_implemented(e),
    {
        Err(not_implemented_error())
    }

    fn capabilities(&self) -> (r: FeedCaps)
        ensures
            r == (FeedCaps { depth: true, volume: true, ticks: true }),
    {
        FeedCaps { depth: true, volume: true, ticks: true }
    }
}

impl Broker for BinanceBroker {
    open spec fn submit_step(&self, intent: OrderIntent, r: PortResult<BrokerOrderId>, after: &Self) -> bool {
        r matches Err(e) && not_implemented(e)
    }

    open spec fn modify_step(
        &self,
        id: BrokerOrderId,
        sl: Option<i64>,
        tp: Option<i64>,
        r: PortResult<()>,
        after: &Self,
    ) -> bool {
        r == Err::<(), PortError>(PortError::NotConnected)
    }

    open spec fn close_step(&self, id: BrokerOrderId, qty: Option<i64>, r: PortResult<()>, after: &Self) -> bool {
        r == Err::<(), PortError>(PortError::NotConnected)
    }

    open spec fn poll_event_step(&self, r: Option<ExecEvent>, after: &Self) -> bool {
        r is None
    }

    open spec fn account_result(&self, r: AccountSnapshot) -> bool {
        r == (AccountSnapshot { equity: 0, balance: 0, free_margin: 0 })
    }

    open spec fn constraints_result(&self, sym: SymbolId, r: PortResult<SymbolConstraints>) -> bool {
        r == Err::<SymbolConstraints, PortError>(PortError::NotConnected)
    }

    open spec fn positions_result(&self, r: PortResult<Vec<PositionSnapshot>>) -> bool {
        r matches Err(e) && e == PortError::NotConnected
    }

    fn submit(&mut self, intent: &OrderIntent) -> (r: PortResult<BrokerOrderId>)
        ensures
            r matches Err(e) && not_implemented(e),
    {
        Err(not_implemented_error())
    }

    fn modify(&mut self, id: BrokerOrderId, sl: Option<i64>, tp: Option<i64>) -> (r: PortResult<()>)
        ensures
            r == Err::<(), PortError>(PortError::NotConnected),
    {
        Err(PortError::NotConnected)
    }

    fn close(&mut self, id: BrokerOrderId, qty: Option<i64>) -> (r: PortResult<()>)
        ensures
            r == Err::<(), PortError>(PortError::NotConnected),
    {
        Err(PortError::NotConnected)
    }

    fn poll_event(&mut self) -> (r: Option<ExecEvent>)
        ensures
            r is None,
    {
        None
    }

    fn account(&self) -> (r: AccountSnapshot)
        ensures
            r == (AccountSnapshot { equity: 0, balance: 0, free_margin: 0 }),
    {
        AccountSnapshot::default()
    }

    fn constraints(&self, sym: SymbolId) -> (r: PortResult<SymbolConstraints>)
        ensures
            r == Err::<SymbolConstraints, PortError>(PortError::NotConnected),
    {
        Err(PortError::NotConnected)
    }

    fn positions(&self) -> (r: PortResult<Vec<PositionSnapshot>>)
        ensures
            r matches Err(e) && e == PortError::NotConnected,
    {
        Err(PortError::NotConnected)
    }
}

} // verus!
