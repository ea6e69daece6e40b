//! Ceding control to the scheduler once.

use crate::task::Step;
use vstd::prelude::*;

verus! {

/// An operation that is pending when first resumed and ready when resumed
/// again.
#[derive(Copy, Clone, Debug)]
pub struct Yield {
    pub yielded: bool,
}

impl Yield {
    /// Resumes the operation once.
    ///
    /// The first resumption hands back the operation marked as having
    /// yielded, for the caller to wake it at once. The second one completes.
    pub fn poll(self) -> (step: Step<(), Yield>)
        ensures
            self.yielded ==> step == Step::<(), Yield>::Ready(()),
            !self.yielded ==> step == Step::<(), Yield>::Pending(Yield { yielded: true }),
    {
        if self.yielded {
            Step::Ready(())
        } else {
            Step::Pending(Yield { yielded: true })
        }
    }
}

} // verus!
