//! Errors of the durable, replayable publish/subscribe bus that carries
//! signals, orders and fills across process boundaries.

use vstd::prelude::*;

verus! {

#[derive(Debug, Clone, PartialEq, Eq)]
pub enum BusError {
    NotConnected,
    Publish(String),
    Subscribe(String),
}

} // verus!
