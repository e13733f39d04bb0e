//! Runs of calls that each hand back an optional value: what such a run
//! yields, and counters that move by one with every value handed out.

use vstd::prelude::*;

verus! {

/// The values of the `Some` entries of `outs`, in order.
pub open spec fn yielded<T>(outs: Seq<Option<T>>) -> Seq<T>
    decreases outs.len(),
{
    if outs.len() == 0 {
        Seq::empty()
    } else {
        match outs.last() {
            Some(v) => yielded(outs.drop_last()).push(v),
            None => yielded(outs.drop_last()),
        }
    }
}

/// `next[i + 1]` follows `next[i]` by one call: a call that handed out a
/// value handed out `next[i]` and moved on by one, any other call left
/// the counter alone.
pub open spec fn counts_up(next: Seq<int>, handed: Seq<Option<u64>>) -> bool {
    &&& next.len() == handed.len() + 1
    &&& forall|i: int|
        0 <= i < handed.len() ==> match #[trigger] handed[i] {
            Some(v) => v == next[i] && next[i + 1] == next[i] + 1,
            None => next[i + 1] == next[i],
        }
}

/// Along a counting run, the value handed out at call `i` is the start
/// plus the number of values handed out before it, and the counter ends at
/// the start plus the number of values handed out.
pub proof fn lemma_counting_run(next: Seq<int>, handed: Seq<Option<u64>>)
    requires
        counts_up(next, handed),
    ensures
        forall|i: int|
            0 <= i < handed.len() ==> (#[trigger] handed[i] matches Some(v) ==> v == next[0] + yielded(
                handed.take(i),
            ).len()),
        next.last() == next[0] + yielded(handed).len(),
    decreases handed.len(),
{
    if handed.len() > 0 {
        let n = handed.len() - 1;
        let shorter = handed.drop_last();
        let fewer = next.drop_last();
        assert(counts_up(fewer, shorter)) by {
            assert forall|i: int| 0 <= i < shorter.len() implies match #[trigger] shorter[i] {
                Some(v) => v == fewer[i] && fewer[i + 1] == fewer[i] + 1,
                None => fewer[i + 1] == fewer[i],
            } by {
                assert(shorter[i] == handed[i]);
            }
        }
        lemma_counting_run(fewer, shorter);
        assert(handed.take(n) =~= shorter);
        assert(handed[n] == handed.last());
        assert forall|i: int| 0 <= i < handed.len() implies (#[trigger] handed[i] matches Some(v) ==> v == next[0]
            + yielded(handed.take(i)).len()) by {
            if i < n {
                assert(shorter[i] == handed[i]);
                assert(shorter.take(i) =~= handed.take(i));
            }
        }
    }
}

} // verus!
