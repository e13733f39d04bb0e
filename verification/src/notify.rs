//! Errors of the outbound notification port: every safety-guard trip and
//! the kill switch must reach a human through at least one channel.

use vstd::prelude::*;

verus! {

#[derive(Debug, Clone, PartialEq, Eq)]
pub enum NotifyError {
    Delivery(String),
}

} // verus!
