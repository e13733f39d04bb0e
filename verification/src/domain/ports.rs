//! Hexagonal ports. Adding a platform means implementing `MarketDataSource`
//! and `Broker` for it; nothing else in the core changes.

use vstd::prelude::*;

use super::order::{BrokerOrderId, ExecEvent, OrderIntent};
use super::tick::{Bar, SymbolId, Tick};

verus! {

#[derive(Debug, Clone, Copy, PartialEq, Eq, Structural)]
pub enum Timeframe {
    M1,
    M5,
    M15,
    H1,
    H4,
    D1,
}

#[derive(Debug, Clone, Copy, PartialEq, Eq, Structural)]
pub struct SymbolSpec {
    pub symbol_id: SymbolId,
    pub price_digits: u8,
}

#[derive(Debug, Clone, Copy, PartialEq, Eq, Structural)]
pub struct FeedCaps {
    pub depth: bool,
    pub volume: bool,
    pub ticks: bool,
}

/// A feed that offers nothing.
impl Default for FeedCaps {
    fn default() -> (r: FeedCaps)
        ensures
            r == (FeedCaps { depth: false, volume: false, ticks: false }),
    {
        FeedCaps { depth: false, volume: false, ticks: false }
    }
}

#[derive(Debug, Clone, Copy, PartialEq, Eq, Structural)]
pub struct SymbolConstraints {
    pub min_lot: i64,
    pub lot_step: i64,
    pub stop_level_points: u32,
}

#[derive(Debug, Clone, Copy, PartialEq, Eq, Structural)]
pub struct AccountSnapshot {
    pub equity: i64,
    pub balance: i64,
    pub free_margin: i64,
}

/// The all-zero snapshot an adapter reports when it has no account data.
impl Default for AccountSnapshot {
    fn default() -> (r: AccountSnapshot)
        ensures
            r == (AccountSnapshot { equity: 0, balance: 0, free_margin: 0 }),
    {
        AccountSnapshot { equity: 0, balance: 0, free_margin: 0 }
    }
}

/// One open position as the broker itself reports it: the ground truth
/// side of position reconciliation.
#[derive(Debug, Clone, Copy, PartialEq, Eq, Structural)]
pub struct PositionSnapshot {
    pub broker_order_id: BrokerOrderId,
    pub symbol_id: SymbolId,
    pub qty: i64,
    pub avg_price: i64,
}

/// Why a port operation failed.
#[derive(Debug, Clone, PartialEq, Eq)]
pub enum PortError {
    NotConnected,
    Unsupported,
    Adapter(String),
}

pub type PortResult<T> = core::result::Result<T, PortError>;

/// Market data source adapter. `poll_tick` is the hot-path method: it polls
/// an already-filled buffer and performs no I/O inline.
pub trait MarketDataSource: Send {
    fn subscribe(&mut self, symbols: &[SymbolSpec]) -> PortResult<()>;

    fn poll_tick(&mut self) -> Option<Tick>;

    fn history(&self, sym: SymbolId, tf: Timeframe, from_ns: u64, to_ns: u64) -> PortResult<Vec<Bar>>;

    fn capabilities(&self) -> FeedCaps;
}

/// Broker adapter: the only trait whose implementations may transmit an
/// order. Each implementation says what its calls do through the `*_step`
/// predicates (`before.x_step(.., r, after)` holds of a call that started
/// in state `before`, returned `r` and left `after`) and what its reads
/// return through the `*_result` predicates. An implementation that does
/// not define one promises nothing about that call.
pub trait Broker: Send {
    open spec fn submit_step(&self, intent: OrderIntent, r: PortResult<BrokerOrderId>, after: &Self) -> bool {
        true
    }

    open spec fn modify_step(
        &self,
        id: BrokerOrderId,
        sl: Option<i64>,
        tp: Option<i64>,
        r: PortResult<()>,
        after: &Self,
    ) -> bool {
        true
    }

    open spec fn close_step(&self, id: BrokerOrderId, qty: Option<i64>, r: PortResult<()>, after: &Self) -> bool {
        true
    }

    open spec fn poll_event_step(&self, r: Option<ExecEvent>, after: &Self) -> bool {
        true
    }

    open spec fn account_result(&self, r: AccountSnapshot) -> bool {
        true
    }

    open spec fn constraints_result(&self, sym: SymbolId, r: PortResult<SymbolConstraints>) -> bool {
        true
    }

    open spec fn positions_result(&self, r: PortResult<Vec<PositionSnapshot>>) -> bool {
        true
    }

    fn submit(&mut self, intent: &OrderIntent) -> (r: PortResult<BrokerOrderId>)
        ensures
            old(self).submit_step(*intent, r, final(self)),
    ;

    fn modify(&mut self, id: BrokerOrderId, sl: Option<i64>, tp: Option<i64>) -> (r: PortResult<()>)
        ensures
            old(self).modify_step(id, sl, tp, r, final(self)),
    ;

    fn close(&mut self, id: BrokerOrderId, qty: Option<i64>) -> (r: PortResult<()>)
        ensures
            old(self).close_step(id, qty, r, final(self)),
    ;

    fn poll_event(&mut self) -> (r: Option<ExecEvent>)
        ensures
            old(self).poll_event_step(r, final(self)),
    ;

    fn account(&self) -> (r: AccountSnapshot)
        ensures
            self.account_result(r),
    ;

    fn constraints(&self, sym: SymbolId) -> (r: PortResult<SymbolConstraints>)
        ensures
            self.constraints_result(sym, r),
    ;

    /// Every open position, as the broker reports it right now.
    fn positions(&self) -> (r: PortResult<Vec<PositionSnapshot>>)
        ensures
            self.positions_result(r),
    ;
}

/// The object-safe face of a broker, so that brokers of different
/// platforms can sit side by side as `Box<dyn DynBroker>`. Every `Broker`
/// is one. Since the state a call leaves cannot be named behind `dyn`, the
/// predicates here say only what each call may return.
pub trait DynBroker: Send {
    open spec fn submit_result(&self, intent: OrderIntent, r: PortResult<BrokerOrderId>) -> bool {
        true
    }

    open spec fn modify_result(&self, id: BrokerOrderId, sl: Option<i64>, tp: Option<i64>, r: PortResult<()>) -> bool {
        true
    }

    open spec fn close_result(&self, id: BrokerOrderId, qty: Option<i64>, r: PortResult<()>) -> bool {
        true
    }

    open spec fn poll_event_result(&self, r: Option<ExecEvent>) -> bool {
        true
    }

    open spec fn dyn_account_result(&self, r: AccountSnapshot) -> bool {
        true
    }

    open spec fn dyn_constraints_result(&self, sym: SymbolId, r: PortResult<SymbolConstraints>) -> bool {
        true
    }

    open spec fn dyn_positions_result(&self, r: PortResult<Vec<PositionSnapshot>>) -> bool {
        true
    }

    fn submit(&mut self, intent: &OrderIntent) -> (r: PortResult<BrokerOrderId>)
        ensures
            old(self).submit_result(*intent, r),
    ;

    fn modify(&mut self, id: BrokerOrderId, sl: Option<i64>, tp: Option<i64>) -> (r: PortResult<()>)
        ensures
            old(self).modify_result(id, sl, tp, r),
    ;

    fn close(&mut self, id: BrokerOrderId, qty: Option<i64>) -> (r: PortResult<()>)
        ensures
            old(self).close_result(id, qty, r),
    ;

    fn poll_event(&mut self) -> (r: Option<ExecEvent>)
        ensures
            old(self).poll_event_result(r),
    ;

    fn account(&self) -> (r: AccountSnapshot)
        ensures
            self.dyn_account_result(r),
    ;

    fn constraints(&self, sym: SymbolId) -> (r: PortResult<SymbolConstraints>)
        ensures
            self.dyn_constraints_result(sym, r),
    ;

    fn positions(&self) -> (r: PortResult<Vec<PositionSnapshot>>)
        ensures
            self.dyn_positions_result(r),
    ;
}

/// Every broker, seen through its object-safe face: a call may return
/// whatever some step of the broker returns.
impl<B: Broker> DynBroker for B {
    open spec fn submit_result(&self, intent: OrderIntent, r: PortResult<BrokerOrderId>) -> bool {
        exists|after: B| #[trigger] self.submit_step(intent, r, &after)
    }

    open spec fn modify_result(&self, id: BrokerOrderId, sl: Option<i64>, tp: Option<i64>, r: PortResult<()>) -> bool {
        exists|after: B| #[trigger] self.modify_step(id, sl, tp, r, &after)
    }

    open spec fn close_result(&self, id: BrokerOrderId, qty: Option<i64>, r: PortResult<()>) -> bool {
        exists|after: B| #[trigger] self.close_step(id, qty, r, &after)
    }

    open spec fn poll_event_result(&self, r: Option<ExecEvent>) -> bool {
        exists|after: B| #[trigger] self.poll_event_step(r, &after)
    }

    open spec fn dyn_account_result(&self, r: AccountSnapshot) -> bool {
        self.account_result(r)
    }

    open spec fn dyn_constraints_result(&self, sym: SymbolId, r: PortResult<SymbolConstraints>) -> bool {
        self.constraints_result(sym, r)
    }

    open spec fn dyn_positions_result(&self, r: PortResult<Vec<PositionSnapshot>>) -> bool {
        self.positions_result(r)
    }

    fn submit(&mut self, intent: &OrderIntent) -> (r: PortResult<BrokerOrderId>) {
        let ghost before = *self;
        let r = Broker::submit(self, intent);
        assert(before.submit_step(*intent, r, &*self));
        r
    }

    fn modify(&mut self, id: BrokerOrderId, sl: Option<i64>, tp: Option<i64>) -> (r: PortResult<()>) {
        let ghost before = *self;
        let r = Broker::modify(self, id, sl, tp);
        assert(before.modify_step(id, sl, tp, r, &*self));
        r
    }

    fn close(&mut self, id: BrokerOrderId, qty: Option<i64>) -> (r: PortResult<()>) {
        let ghost before = *self;
        let r = Broker::close(self, id, qty);
        assert(before.close_step(id, qty, r, &*self));
        r
    }

    fn poll_event(&mut self) -> (r: Option<ExecEvent>) {
        let ghost before = *self;
        let r = Broker::poll_event(self);
        assert(before.poll_event_step(r, &*self));
        r
    }

    fn account(&self) -> (r: AccountSnapshot) {
        Broker::account(self)
    }

    fn constraints(&self, sym: SymbolId) -> (r: PortResult<SymbolConstraints>) {
        Broker::constraints(self, sym)
    }

    fn positions(&self) -> (r: PortResult<Vec<PositionSnapshot>>) {
        Broker::positions(self)
    }
}

/// Forwards every call to the boxed broker. What a call leaves behind in
/// the boxed broker cannot be named, so each step says only what the call
/// returns.
impl Broker for Box<dyn DynBroker> {
    open spec fn submit_step(&self, intent: OrderIntent, r: PortResult<BrokerOrderId>, after: &Self) -> bool {
        (**self).submit_result(intent, r)
    }

    open spec fn modify_step(
        &self,
        id: BrokerOrderId,
        sl: Option<i64>,
        tp: Option<i64>,
        r: PortResult<()>,
        after: &Self,
    ) -> bool {
        (**self).modify_result(id, sl, tp, r)
    }

    open spec fn close_step(&self, id: BrokerOrderId, qty: Option<i64>, r: PortResult<()>, after: &Self) -> bool {
        (**self).close_result(id, qty, r)
    }

    open spec fn poll_event_step(&self, r: Option<ExecEvent>, after: &Self) -> bool {
        (**self).poll_event_result(r)
    }

    open spec fn account_result(&self, r: AccountSnapshot) -> bool {
        (**self).dyn_account_result(r)
    }

    open spec fn constraints_result(&self, sym: SymbolId, r: PortResult<SymbolConstraints>) -> bool {
        (**self).dyn_constraints_result(sym, r)
    }

    open spec fn positions_result(&self, r: PortResult<Vec<PositionSnapshot>>) -> bool {
        (**self).dyn_positions_result(r)
    }

    fn submit(&mut self, intent: &OrderIntent) -> PortResult<BrokerOrderId> {
        DynBroker::submit(&mut **self, intent)
    }

    fn modify(&mut self, id: BrokerOrderId, sl: Option<i64>, tp: Option<i64>) -> PortResult<()> {
        DynBroker::modify(&mut **self, id, sl, tp)
    }

    fn close(&mut self, id: BrokerOrderId, qty: Option<i64>) -> PortResult<()> {
        DynBroker::close(&mut **self, id, qty)
    }

    fn poll_event(&mut self) -> Option<ExecEvent> {
        DynBroker::poll_event(&mut **self)
    }

    fn account(&self) -> AccountSnapshot {
        DynBroker::account(&**self)
    }

    fn constraints(&self, sym: SymbolId) -> PortResult<SymbolConstraints> {
        DynBroker::constraints(&**self, sym)
    }

    fn positions(&self) -> PortResult<Vec<PositionSnapshot>> {
        DynBroker::positions(&**self)
    }
}

} // verus!
