//! The expiry rule for advisory signals. A signal carries a hard expiry
//! (nanoseconds since the epoch); the core discards it from that instant
//! on, unconditionally.

use vstd::prelude::*;

verus! {

/// Whether a signal with expiry `ttl_ns` is expired at `now_ns`. The
/// expiry instant itself already counts as expired, so an unclear clock
/// reading never keeps a stale signal alive.
pub fn is_expired(ttl_ns: u64, now_ns: u64) -> (r: bool)
    ensures
        r <==> now_ns >= ttl_ns,
{
    now_ns >= ttl_ns
}

} // verus!
