//! The common shape of incremental indicators: each folds in the next input
//! and emits an updated reading without rescanning history.

use vstd::prelude::*;

verus! {

pub trait Incremental {
    /// The value folded in on each update (a price, a bar, ...).
    type Input;

    /// The emitted reading, absent while warming up.
    type Output;

    fn update(&mut self, input: Self::Input) -> Self::Output;

    fn value(&self) -> Self::Output;
}

} // verus!
