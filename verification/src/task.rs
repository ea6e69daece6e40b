//! What one resumption of a pending operation yields, and the operation
//! that only cedes control.

pub mod yield_now;

use vstd::prelude::*;

verus! {

/// Outcome of resuming a pending operation once.
///
/// `Ready` carries the operation's result. `Pending` hands the operation
/// back, updated by what the attempt observed, to be resumed again.
#[derive(Debug)]
pub enum Step<T, P> {
    Ready(T),
    Pending(P),
}

} // verus!
