use std::collections::HashSet;

use vstd::prelude::*;

verus! {

broadcast use vstd::std_specs::hash::group_hash_axioms;

/// Tracks the `client_id`s already submitted, so that a resubmission
/// (after a retry, say) is a no-op rather than a duplicate order.
pub struct IdempotencyGuard {
    seen: HashSet<u128>,
}

impl IdempotencyGuard {
    /// The client ids admitted so far.
    pub closed spec fn admitted(&self) -> Set<u128> {
        self.seen@
    }

    pub fn new() -> (r: Self)
        ensures
            r.admitted() == Set::<u128>::empty(),
    {
        IdempotencyGuard { seen: HashSet::new() }
    }

    /// Returns `true` the first time `client_id` is seen, `false` on every
    /// resubmission.
    pub fn admit_id(&mut self, client_id: u128) -> (r: bool)
        ensures
            r == !old(self).admitted().contains(client_id),
            final(self).admitted() == old(self).admitted().insert(client_id),
    {
        self.seen.insert(client_id)
    }
}

/// Once a client id has been admitted, every later `admit_id` of it is
/// refused, whatever was admitted in between.
pub proof fn lemma_admitted_ids_stay_refused(before: Set<u128>, later: Seq<u128>, client_id: u128)
    requires
        before.contains(client_id),
    ensures
        later.fold_left(before, |s: Set<u128>, id: u128| s.insert(id)).contains(client_id),
    decreases later.len(),
{
    if later.len() > 0 {
        let f = |s: Set<u128>, id: u128| s.insert(id);
        lemma_admitted_ids_stay_refused(before, later.drop_last(), client_id);
        assert(later.fold_left(before, f) == later.drop_last().fold_left(before, f).insert(later.last()));
    }
}

} // verus!
