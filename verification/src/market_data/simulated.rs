//! A short deterministic tick sequence for driving the pipeline without a
//! live feed: twenty ticks 200 ms apart, drifting up 15 points each.

use vstd::prelude::*;

use crate::domain::Tick;

verus! {

/// Number of ticks in the simulated sequence.
pub const SIMULATED_TICK_COUNT: u64 = 20;

/// The `i`-th simulated tick.
pub open spec fn simulated_tick(i: int) -> Tick {
    Tick {
        ts_ns: (i * 200_000_000) as u64,
        recv_ns: (i * 200_000_000 + 5_000) as u64,
        symbol_id: 1,
        bid: (100_000 + i * 15) as i64,
        ask: (100_010 + i * 15) as i64,
        bid_volume: 3,
        ask_volume: 2,
        flags: 0,
    }
}

pub fn simulated_ticks() -> (r: Vec<Tick>)
    ensures
        r@.len() == SIMULATED_TICK_COUNT,
        forall|i: int| 0 <= i < r@.len() ==> #[trigger] r@[i] == simulated_tick(i),
{
    let mut out: Vec<Tick> = Vec::new();
    for i in 0..SIMULATED_TICK_COUNT
        invariant
            out@.len() == i,
            forall|j: int| 0 <= j < i ==> #[trigger] out@[j] == simulated_tick(j),
    {
        let drift: i64 = i as i64 * 15;
        out.push(
            Tick {
                ts_ns: i * 200_000_000,
                recv_ns: i * 200_000_000 + 5_000,
                symbol_id: 1,
                bid: 100_000 + drift,
                ask: 100_010 + drift,
                bid_volume: 3,
                ask_volume: 2,
                flags: 0,
            },
        );
    }
    out
}

} // verus!
