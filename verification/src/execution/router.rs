//! Order router: the only thing allowed to call `Broker::submit`.

use std::collections::HashMap;

use vstd::prelude::*;

use crate::domain::{Broker, BrokerOrderId, ExecEvent, OrderIntent, PortError, PortResult};

verus! {

broadcast use vstd::std_specs::hash::group_hash_axioms;

pub struct OrderRouter<B: Broker> {
    broker: B,
    /// `client_id` -> the broker order id it successfully produced. A
    /// `client_id` that only attempted and was rejected is absent, so a
    /// genuine retry can still go through.
    submitted: HashMap<u128, BrokerOrderId>,
}

/// Why an intent without both stop loss and take profit is refused.
pub open spec fn missing_sl_or_tp_message() -> Seq<char> {
    "OrderIntent must carry both sl and tp at submission"@
}

/// An intent carries both its stop loss and its take profit.
pub open spec fn has_sl_and_tp(intent: OrderIntent) -> bool {
    intent.sl is Some && intent.tp is Some
}

impl<B: Broker> OrderRouter<B> {
    /// The idempotency ledger: client id -> broker order id it produced.
    pub closed spec fn ledger(self) -> Map<u128, BrokerOrderId> {
        self.submitted@
    }

    /// The broker this router forwards to.
    pub closed spec fn broker_state(self) -> B {
        self.broker
    }

    /// What one `submit` of `intent` does to a router `before`, giving `r`
    /// and leaving `after`.
    pub open spec fn submit_post(before: Self, intent: OrderIntent, r: PortResult<BrokerOrderId>, after: Self) -> bool {
        if before.ledger().contains_key(intent.client_id) {
            // Already placed: the first result, and nothing is placed again.
            &&& r == PortResult::<BrokerOrderId>::Ok(before.ledger()[intent.client_id])
            &&& after == before
        } else if !has_sl_and_tp(intent) {
            // Stop loss and take profit are set atomically with entry, or
            // the order is refused before it reaches the broker.
            &&& r matches Err(PortError::Adapter(msg)) && msg@ == missing_sl_or_tp_message()
            &&& after == before
        } else {
            // Forwarded: the broker's own result, and the ledger records
            // the client id iff the broker accepted it.
            &&& before.broker_state().submit_step(intent, r, &after.broker_state())
            &&& after.ledger() == match r {
                Ok(id) => before.ledger().insert(intent.client_id, id),
                Err(_) => before.ledger(),
            }
        }
    }

    pub fn new(broker: B) -> (r: Self)
        ensures
            r.ledger() == Map::<u128, BrokerOrderId>::empty(),
            r.broker_state() == broker,
    {
        OrderRouter { broker, submitted: HashMap::new() }
    }

    /// Submits `intent`, refusing an intent without both stop loss and take
    /// profit, and returning the first result for a `client_id` that
    /// already succeeded instead of placing a second order.
    pub fn submit(&mut self, intent: &OrderIntent) -> (r: PortResult<BrokerOrderId>)
        ensures
            Self::submit_post(*old(self), *intent, r, *final(self)),
    {
        match self.submitted.get(&intent.client_id) {
            Some(existing) => {
                return Ok(*existing);
            },
            None => {},
        }
        if intent.sl.is_none() || intent.tp.is_none() {
            return Err(PortError::Adapter("OrderIntent must carry both sl and tp at submission".to_owned()));
        }
        let result = self.broker.submit(intent);
        match result {
            Ok(broker_order_id) => {
                self.submitted.insert(intent.client_id, broker_order_id);
            },
            Err(_) => {},
        }
        result
    }

    pub fn modify(&mut self, id: BrokerOrderId, sl: Option<i64>, tp: Option<i64>) -> (r: PortResult<()>)
        ensures
            old(self).broker_state().modify_step(id, sl, tp, r, &final(self).broker_state()),
            final(self).ledger() == old(self).ledger(),
    {
        self.broker.modify(id, sl, tp)
    }

    pub fn close(&mut self, id: BrokerOrderId, qty: Option<i64>) -> (r: PortResult<()>)
        ensures
            old(self).broker_state().close_step(id, qty, r, &final(self).broker_state()),
            final(self).ledger() == old(self).ledger(),
    {
        self.broker.close(id, qty)
    }

    pub fn poll_event(&mut self) -> (r: Option<ExecEvent>)
        ensures
            old(self).broker_state().poll_event_step(r, &final(self).broker_state()),
            final(self).ledger() == old(self).ledger(),
    {
        self.broker.poll_event()
    }

    pub fn broker(&self) -> (r: &B)
        ensures
            *r == self.broker_state(),
    {
        &self.broker
    }
}

/// Resubmitting a `client_id` that already succeeded returns the first
/// broker order id and changes nothing: no second order is placed.
pub proof fn lemma_resubmission_is_idempotent<B: Broker>(
    r0: OrderRouter<B>,
    r1: OrderRouter<B>,
    r2: OrderRouter<B>,
    intent: OrderIntent,
    first: PortResult<BrokerOrderId>,
    second: PortResult<BrokerOrderId>,
)
    requires
        OrderRouter::submit_post(r0, intent, first, r1),
        first is Ok,
        OrderRouter::submit_post(r1, intent, second, r2),
    ensures
        second == first,
        r2 == r1,
{
}

/// A `client_id` whose submission failed is not locked out: the ledger is
/// unchanged, so the next submission of it is forwarded again.
pub proof fn lemma_failed_submission_can_be_retried<B: Broker>(
    r0: OrderRouter<B>,
    r1: OrderRouter<B>,
    intent: OrderIntent,
    first: PortResult<BrokerOrderId>,
)
    requires
        OrderRouter::submit_post(r0, intent, first, r1),
        first is Err,
    ensures
        r1.ledger() == r0.ledger(),
        !r1.ledger().contains_key(intent.client_id),
{
}

/// An intent missing its stop loss or its take profit never reaches the
/// broker: it is refused and the router is unchanged.
pub proof fn lemma_missing_sl_or_tp_is_refused<B: Broker>(
    r0: OrderRouter<B>,
    r1: OrderRouter<B>,
    intent: OrderIntent,
    r: PortResult<BrokerOrderId>,
)
    requires
        OrderRouter::submit_post(r0, intent, r, r1),
        !r0.ledger().contains_key(intent.client_id),
        !has_sl_and_tp(intent),
    ensures
        r is Err,
        r1 == r0,
{
}

/// `b` still records every client id `a` records, with the same broker
/// order id.
pub open spec fn ledger_extends(a: Map<u128, BrokerOrderId>, b: Map<u128, BrokerOrderId>) -> bool {
    forall|c: u128| #[trigger] a.contains_key(c) ==> b.contains_key(c) && b[c] == a[c]
}

/// A submit never forgets or rewrites a recorded client id; `modify`,
/// `close` and `poll_event` leave the ledger as it was.
pub proof fn lemma_submit_extends_the_ledger<B: Broker>(
    before: OrderRouter<B>,
    intent: OrderIntent,
    r: PortResult<BrokerOrderId>,
    after: OrderRouter<B>,
)
    requires
        OrderRouter::submit_post(before, intent, r, after),
    ensures
        ledger_extends(before.ledger(), after.ledger()),
{
}

proof fn lemma_ledger_extends_along<B: Broker>(states: Seq<OrderRouter<B>>, k: int)
    requires
        0 <= k < states.len(),
        forall|i: int| 0 <= i < states.len() - 1 ==> ledger_extends(#[trigger] states[i].ledger(), states[i + 1].ledger()),
    ensures
        ledger_extends(states[0].ledger(), states[k].ledger()),
    decreases k,
{
    if k > 0 {
        lemma_ledger_extends_along(states, k - 1);
        assert(ledger_extends(states[k - 1].ledger(), states[k].ledger()));
    }
}

/// However many calls came in between, each keeping the ledger, a client
/// id that once succeeded gets its first broker order id back when it is
/// submitted again, and nothing is placed.
pub proof fn lemma_resubmission_after_any_calls<B: Broker>(
    states: Seq<OrderRouter<B>>,
    intent: OrderIntent,
    id: BrokerOrderId,
    r: PortResult<BrokerOrderId>,
    after: OrderRouter<B>,
)
    requires
        states.len() > 0,
        states[0].ledger().contains_key(intent.client_id),
        states[0].ledger()[intent.client_id] == id,
        forall|i: int| 0 <= i < states.len() - 1 ==> ledger_extends(#[trigger] states[i].ledger(), states[i + 1].ledger()),
        OrderRouter::submit_post(states.last(), intent, r, after),
    ensures
        r == PortResult::<BrokerOrderId>::Ok(id),
        after == states.last(),
{
    lemma_ledger_extends_along(states, states.len() - 1);
}

} // verus!
