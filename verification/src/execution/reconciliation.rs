//! Position reconciliation against the simulated broker. A core keeps its
//! own position book purely from the execution reports it polls and the
//! closes it sends; the laws here show that book never drifts from the
//! broker's own, so a reconciliation guard comparing the two never trips
//! spuriously.

use vstd::prelude::*;

use crate::domain::{BrokerOrderId, ExecEvent};
use super::sim_broker::{OpenPosition, SimBroker};

verus! {

/// A locally kept position: quantity and average price.
pub struct LocalPosition {
    pub qty: int,
    pub avg_price: i64,
}

/// The book after one execution report: a fill opens a position at its
/// price, or adds to one already held; other reports change nothing.
pub open spec fn apply_event(local: Map<BrokerOrderId, LocalPosition>, event: ExecEvent) -> Map<
    BrokerOrderId,
    LocalPosition,
> {
    match event {
        ExecEvent::Fill { broker_order_id, fill_price, qty, .. } => if local.contains_key(broker_order_id) {
            local.insert(
                broker_order_id,
                LocalPosition { qty: local[broker_order_id].qty + qty, ..local[broker_order_id] },
            )
        } else {
            local.insert(broker_order_id, LocalPosition { qty: qty as int, avg_price: fill_price })
        },
        _ => local,
    }
}

/// The book after applying `events` in order.
pub open spec fn apply_events(local: Map<BrokerOrderId, LocalPosition>, events: Seq<ExecEvent>) -> Map<
    BrokerOrderId,
    LocalPosition,
>
    decreases events.len(),
{
    if events.len() == 0 {
        local
    } else {
        apply_events(apply_event(local, events[0]), events.drop_first())
    }
}

/// The book after sending a close of `qty` (all of it when `None`): a
/// partial close that leaves nothing positive removes the position.
pub open spec fn apply_close(local: Map<BrokerOrderId, LocalPosition>, id: BrokerOrderId, qty: Option<i64>) -> Map<
    BrokerOrderId,
    LocalPosition,
> {
    match qty {
        Some(q) => if local.contains_key(id) {
            let left = local[id].qty - q;
            if left <= 0 {
                local.remove(id)
            } else {
                local.insert(id, LocalPosition { qty: left, ..local[id] })
            }
        } else {
            local
        },
        None => local.remove(id),
    }
}

/// `local` holds exactly the broker's positions, each with the broker's
/// quantity and average price.
pub open spec fn mirrors(local: Map<BrokerOrderId, LocalPosition>, book: Map<BrokerOrderId, OpenPosition>) -> bool {
    &&& local.dom() == book.dom()
    &&& forall|id: BrokerOrderId| #[trigger]
        local.contains_key(id) ==> local[id].qty == book[id].qty && local[id].avg_price == book[id].avg_price
}

/// `local`, once every pending report is applied, mirrors the broker.
pub open spec fn in_step(local: Map<BrokerOrderId, LocalPosition>, broker: SimBroker) -> bool {
    mirrors(apply_events(local, broker.pending()), broker.book())
}

proof fn lemma_apply_events_push(local: Map<BrokerOrderId, LocalPosition>, events: Seq<ExecEvent>, e: ExecEvent)
    ensures
        apply_events(local, events.push(e)) == apply_event(apply_events(local, events), e),
    decreases events.len(),
{
    if events.len() == 0 {
        assert(events.push(e).drop_first() =~= Seq::<ExecEvent>::empty());
        assert(apply_events(apply_event(local, e), Seq::<ExecEvent>::empty()) == apply_event(local, e));
    } else {
        assert(events.push(e).drop_first() =~= events.drop_first().push(e));
        lemma_apply_events_push(apply_event(local, events[0]), events.drop_first(), e);
    }
}

/// A submit keeps the local book in step: a rejected one reports nothing
/// and books nothing, an accepted one books a fresh position and reports
/// exactly its quantity and price.
pub proof fn lemma_submits_keep_the_local_book_in_step(
    local: Map<BrokerOrderId, LocalPosition>,
    before: SimBroker,
    intent: crate::domain::OrderIntent,
    r: crate::domain::PortResult<BrokerOrderId>,
    after: SimBroker,
)
    requires
        in_step(local, before),
        SimBroker::submit_post(before, intent, r, after),
    ensures
        in_step(local, after),
{
    if let Ok(id) = r {
        let p = after.book()[id];
        let fill = ExecEvent::Fill {
            client_id: intent.client_id,
            broker_order_id: id,
            fill_price: p.avg_price,
            qty: p.qty,
            ts_ns: 0,
        };
        lemma_apply_events_push(local, before.pending(), fill);
        let mid = apply_events(local, before.pending());
        assert(!mid.contains_key(id));
        let next = apply_event(mid, fill);
        assert(next.dom() =~= after.book().dom());
        assert forall|k: BrokerOrderId| #[trigger] next.contains_key(k) implies next[k].qty == after.book()[k].qty
            && next[k].avg_price == after.book()[k].avg_price by {
            if k != id {
                assert(mid.contains_key(k));
            }
        }
    }
}

/// Polling hands the oldest report to the local book: applied there, the
/// book stays in step.
pub proof fn lemma_polls_keep_the_local_book_in_step(
    local: Map<BrokerOrderId, LocalPosition>,
    before: SimBroker,
    r: Option<ExecEvent>,
    after: SimBroker,
)
    requires
        in_step(local, before),
        SimBroker::poll_post(before, r, after),
    ensures
        in_step(
            match r {
                Some(e) => apply_event(local, e),
                None => local,
            },
            after,
        ),
{
}

/// A modify only moves stop loss and take profit, which the local book
/// does not track; its report changes nothing there.
pub proof fn lemma_modifies_keep_the_local_book_in_step(
    local: Map<BrokerOrderId, LocalPosition>,
    before: SimBroker,
    id: BrokerOrderId,
    sl: Option<i64>,
    tp: Option<i64>,
    r: crate::domain::PortResult<()>,
    after: SimBroker,
)
    requires
        in_step(local, before),
        SimBroker::modify_post(before, id, sl, tp, r, after),
    ensures
        in_step(local, after),
{
    if r is Ok {
        let e = ExecEvent::Modify { broker_order_id: id, sl, tp, ts_ns: 0 };
        lemma_apply_events_push(local, before.pending(), e);
        let mid = apply_events(local, before.pending());
        assert(mid.dom() =~= after.book().dom());
    }
}

/// With every report polled, a close of a positive quantity (or of the
/// whole position) applied to the local book keeps it mirroring the
/// broker's.
pub proof fn lemma_closes_keep_the_local_book_in_step(
    local: Map<BrokerOrderId, LocalPosition>,
    before: SimBroker,
    id: BrokerOrderId,
    qty: Option<i64>,
    r: crate::domain::PortResult<()>,
    after: SimBroker,
)
    requires
        before.pending().len() == 0,
        mirrors(local, before.book()),
        qty matches Some(q) ==> q > 0,
        SimBroker::close_post(before, id, qty, r, after),
    ensures
        after.pending().len() == 0,
        mirrors(apply_close(local, id, qty), after.book()),
{
    let next = apply_close(local, id, qty);
    if before.book().contains_key(id) {
        assert(next.dom() =~= after.book().dom());
    } else {
        assert(next =~= local);
    }
}

} // verus!
