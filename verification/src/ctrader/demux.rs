//! Request/reply demultiplexing on the broker connection. Requests and
//! server-initiated pushes share one byte stream: each outbound request
//! gets a fresh `req_id` and waits in a pending table; each inbound frame
//! is either an unsolicited push (`req_id` 0) or the reply to exactly one
//! pending request, which it takes out of the table.

use std::collections::HashMap;

use vstd::prelude::*;

use crate::domain::ExecEvent;
use super::protocol::{ServerFrame, ServerMessage, UNSOLICITED_REQ_ID};
use crate::runs::{counts_up, lemma_counting_run, yielded};

verus! {

broadcast use vstd::std_specs::hash::group_hash_axioms;

/// Where one inbound frame goes.
pub enum Delivery<T> {
    /// An unsolicited execution report, for `poll_event`.
    Event(ExecEvent),
    /// The reply to a pending request, for the waiter registered with it.
    Reply(T, ServerMessage),
    /// Nobody waits for it.
    Dropped,
}

/// The pending-request table: `req_id` -> whatever the caller needs to hand
/// the reply to its waiter.
pub struct ReplyDemux<T> {
    pending: HashMap<u64, T>,
    next_req_id: u64,
}

impl<T> ReplyDemux<T> {
    /// The requests that still wait for a reply.
    pub closed spec fn waiting(self) -> Map<u64, T> {
        self.pending@
    }

    /// The `req_id` the next request gets.
    pub closed spec fn next_id(self) -> u64 {
        self.next_req_id
    }

    /// Every waiting id was handed out already, and none is the
    /// unsolicited id.
    #[verifier::type_invariant]
    closed spec fn ids_handed_out(self) -> bool {
        &&& self.next_req_id > UNSOLICITED_REQ_ID
        &&& forall|id: u64| #[trigger]
            self.pending@.contains_key(id) ==> UNSOLICITED_REQ_ID < id < self.next_req_id
    }

    /// One call on the table. With `handed` set, a call that handed out
    /// that id: the next one, which was not waiting and now waits. With
    /// `handed` empty, a call that handed out no id and only let requests
    /// stop waiting, leaving the others' waiters as they were.
    pub open spec fn table_step(before: Self, after: Self, handed: Option<u64>) -> bool {
        match handed {
            Some(id) => {
                &&& id == before.next_id()
                &&& after.next_id() == before.next_id() + 1
                &&& !before.waiting().contains_key(id)
                &&& after.waiting().contains_key(id)
                &&& after.waiting().remove(id) == before.waiting()
            },
            None => {
                &&& after.next_id() == before.next_id()
                &&& after.waiting().submap_of(before.waiting())
            },
        }
    }

    pub fn new() -> (r: Self)
        ensures
            r.waiting() == Map::<u64, T>::empty(),
            r.next_id() == 1,
    {
        ReplyDemux { pending: HashMap::new(), next_req_id: 1 }
    }

    /// Gives the next request a fresh `req_id` and records its waiter;
    /// `None`, with nothing changed, once every id has been handed out.
    pub fn register(&mut self, waiter: T) -> (r: Option<u64>)
        ensures
            match r {
                Some(id) => {
                    &&& id == old(self).next_id()
                    &&& id != UNSOLICITED_REQ_ID
                    &&& !old(self).waiting().contains_key(id)
                    &&& final(self).waiting() == old(self).waiting().insert(id, waiter)
                    &&& final(self).next_id() == old(self).next_id() + 1
                },
                None => {
                    &&& old(self).next_id() == u64::MAX
                    &&& final(self).waiting() == old(self).waiting()
                    &&& final(self).next_id() == old(self).next_id()
                },
            },
            Self::table_step(*old(self), *final(self), r),
    {
        proof {
            use_type_invariant(&*self);
        }
        let id = self.next_req_id;
        if id == u64::MAX {
            return None;
        }
        let mut pending = HashMap::new();
        std::mem::swap(&mut pending, &mut self.pending);
        self.next_req_id = id + 1;
        pending.insert(id, waiter);
        self.pending = pending;
        assert(self.pending@.remove(id) =~= old(self).pending@);
        Some(id)
    }

    /// Withdraws a request whose frame could not be written: its waiter,
    /// if it was still waiting.
    pub fn cancel(&mut self, req_id: u64) -> (r: Option<T>)
        ensures
            final(self).next_id() == old(self).next_id(),
            final(self).waiting() == old(self).waiting().remove(req_id),
            match r {
                Some(w) => old(self).waiting().contains_key(req_id) && w == old(self).waiting()[req_id],
                None => !old(self).waiting().contains_key(req_id),
            },
            Self::table_step(*old(self), *final(self), None),
    {
        proof {
            use_type_invariant(&*self);
        }
        let mut pending = HashMap::new();
        std::mem::swap(&mut pending, &mut self.pending);
        let r = pending.remove(&req_id);
        self.pending = pending;
        r
    }

    /// Routes one inbound frame: an unsolicited execution report becomes
    /// an event, any other unsolicited frame is dropped, and a reply goes
    /// to the waiter of its `req_id`, which stops waiting; a reply nobody
    /// waits for is dropped.
    pub fn route(&mut self, frame: ServerFrame) -> (r: Delivery<T>)
        ensures
            final(self).next_id() == old(self).next_id(),
            if frame.req_id == UNSOLICITED_REQ_ID {
                &&& final(self).waiting() == old(self).waiting()
                &&& match frame.message {
                    ServerMessage::Execution(event) => r == Delivery::<T>::Event(event),
                    _ => r is Dropped,
                }
            } else if old(self).waiting().contains_key(frame.req_id) {
                &&& r == Delivery::Reply(old(self).waiting()[frame.req_id], frame.message)
                &&& final(self).waiting() == old(self).waiting().remove(frame.req_id)
            } else {
                &&& r is Dropped
                &&& final(self).waiting() == old(self).waiting()
            },
            Self::table_step(*old(self), *final(self), None),
    {
        proof {
            use_type_invariant(&*self);
        }
        if frame.req_id == UNSOLICITED_REQ_ID {
            return match frame.message {
                ServerMessage::Execution(event) => Delivery::Event(event),
                _ => Delivery::Dropped,
            };
        }
        match self.cancel(frame.req_id) {
            Some(waiter) => Delivery::Reply(waiter, frame.message),
            None => Delivery::Dropped,
        }
    }
}

/// Along a run of calls on one table, each a `table_step`, the id to hand
/// out next never goes down.
proof fn lemma_next_id_grows<T>(states: Seq<ReplyDemux<T>>, handed: Seq<Option<u64>>, lo: int, hi: int)
    requires
        states.len() == handed.len() + 1,
        forall|i: int| 0 <= i < handed.len() ==> ReplyDemux::table_step(states[i], states[i + 1], #[trigger] handed[i]),
        0 <= lo <= hi < states.len(),
    ensures
        states[lo].next_id() <= states[hi].next_id(),
    decreases hi - lo,
{
    if lo < hi {
        lemma_next_id_grows(states, handed, lo, hi - 1);
        assert(ReplyDemux::table_step(states[hi - 1], states[hi], handed[hi - 1]));
    }
}

/// An id below the next one to hand out that still waits at `hi` waited
/// at `lo` already, for the same waiter.
proof fn lemma_waiting_goes_back<T>(states: Seq<ReplyDemux<T>>, handed: Seq<Option<u64>>, id: u64, lo: int, hi: int)
    requires
        states.len() == handed.len() + 1,
        forall|i: int| 0 <= i < handed.len() ==> ReplyDemux::table_step(states[i], states[i + 1], #[trigger] handed[i]),
        0 <= lo <= hi < states.len(),
        id < states[lo].next_id(),
        states[hi].waiting().contains_key(id),
    ensures
        states[lo].waiting().contains_key(id),
        states[hi].waiting()[id] == states[lo].waiting()[id],
    decreases hi - lo,
{
    if lo < hi {
        lemma_next_id_grows(states, handed, lo, hi - 1);
        let before = states[hi - 1];
        let after = states[hi];
        assert(ReplyDemux::table_step(before, after, handed[hi - 1]));
        if handed[hi - 1] is Some {
            let h = handed[hi - 1]->0;
            assert(h != id);
            assert(after.waiting().remove(h).contains_key(id));
            assert(after.waiting().remove(h)[id] == after.waiting()[id]);
            assert(before.waiting().contains_key(id) && before.waiting()[id] == after.waiting()[id]);
        } else {
            assert(before.waiting().contains_key(id) && before.waiting()[id] == after.waiting()[id]);
        }
        lemma_waiting_goes_back(states, handed, id, lo, hi - 1);
    }
}

/// Over any run of calls on one table: no id is handed out twice, and an
/// id handed out waits for one waiter only, from the call that handed it
/// out until the call that took it out of the table, after which it never
/// waits again, so a reply reaches at most one caller, once.
pub proof fn lemma_ids_are_never_reused<T>(states: Seq<ReplyDemux<T>>, handed: Seq<Option<u64>>)
    requires
        states.len() == handed.len() + 1,
        forall|i: int| 0 <= i < handed.len() ==> ReplyDemux::table_step(states[i], states[i + 1], #[trigger] handed[i]),
    ensures
        forall|i: int, j: int|
            0 <= i < j < handed.len() && #[trigger] handed[i] is Some && #[trigger] handed[j] is Some ==> handed[i]->0
                < handed[j]->0,
        forall|i: int, j: int|
            0 <= i < j < states.len() && #[trigger] handed[i] is Some && (#[trigger] states[j]).waiting().contains_key(
                handed[i]->0,
            ) ==> states[j].waiting()[handed[i]->0] == states[i + 1].waiting()[handed[i]->0],
        forall|i: int, k: int, j: int|
            0 <= i < k <= j < states.len() && #[trigger] handed[i] is Some && !(#[trigger] states[k]).waiting().contains_key(
                handed[i]->0,
            ) ==> !(#[trigger] states[j]).waiting().contains_key(handed[i]->0),
{
    assert forall|i: int, j: int|
        0 <= i < j < handed.len() && #[trigger] handed[i] is Some && #[trigger] handed[j] is Some implies handed[i]->0
            < handed[j]->0 by {
        assert(ReplyDemux::table_step(states[i], states[i + 1], handed[i]));
        assert(ReplyDemux::table_step(states[j], states[j + 1], handed[j]));
        lemma_next_id_grows(states, handed, i + 1, j);
    }
    assert forall|i: int, j: int|
        0 <= i < j < states.len() && #[trigger] handed[i] is Some && (#[trigger] states[j]).waiting().contains_key(
            handed[i]->0,
        ) implies states[j].waiting()[handed[i]->0] == states[i + 1].waiting()[handed[i]->0] by {
        assert(ReplyDemux::table_step(states[i], states[i + 1], handed[i]));
        lemma_waiting_goes_back(states, handed, handed[i]->0, i + 1, j);
    }
    assert forall|i: int, k: int, j: int|
        0 <= i < k <= j < states.len() && #[trigger] handed[i] is Some && !(#[trigger] states[k]).waiting().contains_key(
            handed[i]->0,
        ) implies !(#[trigger] states[j]).waiting().contains_key(handed[i]->0) by {
        assert(ReplyDemux::table_step(states[i], states[i + 1], handed[i]));
        lemma_next_id_grows(states, handed, i + 1, k);
        if states[j].waiting().contains_key(handed[i]->0) {
            lemma_waiting_goes_back(states, handed, handed[i]->0, k, j);
        }
    }
}

/// Over any run of calls on one table, the ids handed out count up from
/// the table's next id: the one handed out at call `i` is that id plus the
/// number handed out before it, so on a new table the `j`-th request gets
/// id `j`.
pub proof fn lemma_ids_count_up<T>(states: Seq<ReplyDemux<T>>, handed: Seq<Option<u64>>)
    requires
        states.len() == handed.len() + 1,
        forall|i: int| 0 <= i < handed.len() ==> ReplyDemux::table_step(states[i], states[i + 1], #[trigger] handed[i]),
    ensures
        forall|i: int|
            0 <= i < handed.len() ==> (#[trigger] handed[i] matches Some(id) ==> id == states[0].next_id() + yielded(
                handed.take(i),
            ).len()),
        states.last().next_id() == states[0].next_id() + yielded(handed).len(),
{
    let next = Seq::new(states.len(), |i: int| states[i].next_id() as int);
    assert(counts_up(next, handed)) by {
        assert forall|i: int| 0 <= i < handed.len() implies match #[trigger] handed[i] {
            Some(v) => v == next[i] && next[i + 1] == next[i] + 1,
            None => next[i + 1] == next[i],
        } by {
            assert(ReplyDemux::table_step(states[i], states[i + 1], handed[i]));
        }
    }
    lemma_counting_run(next, handed);
}

} // verus!
