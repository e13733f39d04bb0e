use vstd::prelude::*;

use super::enums::{OrderType, Side, TimeInForce, TradingMode};
use super::tick::SymbolId;

verus! {

/// The only message that authorizes an order.
#[derive(Debug, Clone, PartialEq)]
pub struct OrderIntent {
    /// Idempotency key. Resubmission with the same `client_id` is a no-op,
    /// not a duplicate order.
    pub client_id: u128,
    pub symbol_id: SymbolId,
    pub side: Side,
    /// Fixed-point lots.
    pub qty: i64,
    pub order_type: OrderType,
    pub limit_px: Option<i64>,
    /// Set atomically with entry, never as a follow-up modify.
    pub sl: Option<i64>,
    pub tp: Option<i64>,
    pub tif: TimeInForce,
    pub mode: TradingMode,
    pub max_slippage_pts: u32,
    /// Every signal id that contributed to this order.
    pub signal_ids: SignalIds,
}

/// The signal ids behind an order, in order; up to four are held inline.
#[verifier::external_body]
#[derive(Debug, PartialEq)]
pub struct SignalIds {
    ids: smallvec::SmallVec<[u128; 4]>,
}

/// The ids a `SignalIds` holds, in order.
pub uninterp spec fn signal_id_seq(ids: SignalIds) -> Seq<u128>;

impl View for SignalIds {
    type V = Seq<u128>;

    open spec fn view(&self) -> Seq<u128> {
        signal_id_seq(*self)
    }
}

/// `SmallVec::new`: an empty vector.
#[verifier::external_body]
fn small_vec_new() -> (r: SignalIds)
    ensures
        signal_id_seq(r) == Seq::<u128>::empty(),
{
    SignalIds { ids: smallvec::SmallVec::new() }
}

/// `SmallVec::from_slice`: a vector holding a copy of the slice's items,
/// in order.
#[verifier::external_body]
fn small_vec_from_slice(ids: &[u128]) -> (r: SignalIds)
    ensures
        signal_id_seq(r) == ids@,
{
    SignalIds { ids: smallvec::SmallVec::from_slice(ids) }
}

/// `SmallVec::as_slice`: the vector's items, in order.
#[verifier::external_body]
fn small_vec_as_slice(ids: &SignalIds) -> (r: &[u128])
    ensures
        r@ == signal_id_seq(*ids),
{
    ids.ids.as_slice()
}

impl Clone for SignalIds {
    /// `SmallVec::clone`: a vector holding the same items, in order.
    #[verifier::external_body]
    fn clone(&self) -> (r: Self)
        ensures
            r@ == self@,
    {
        SignalIds { ids: self.ids.clone() }
    }
}

impl SignalIds {
    /// No signal ids.
    pub fn new() -> (r: Self)
        ensures
            r@ == Seq::<u128>::empty(),
    {
        small_vec_new()
    }

    /// The ids of `ids`, in order.
    pub fn from_slice(ids: &[u128]) -> (r: Self)
        ensures
            r@ == ids@,
    {
        small_vec_from_slice(ids)
    }

    /// The ids held, in order.
    pub fn as_slice(&self) -> (r: &[u128])
        ensures
            r@ == self@,
    {
        small_vec_as_slice(self)
    }
}

pub type BrokerOrderId = u64;

/// Execution report emitted by a broker.
#[derive(Debug, Clone, PartialEq)]
pub enum ExecEvent {
    Fill { client_id: u128, broker_order_id: BrokerOrderId, fill_price: i64, qty: i64, ts_ns: u64 },
    Reject { client_id: u128, reason: String, ts_ns: u64 },
    Modify { broker_order_id: BrokerOrderId, sl: Option<i64>, tp: Option<i64>, ts_ns: u64 },
}

} // verus!
