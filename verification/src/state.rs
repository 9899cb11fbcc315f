//! Whether the decision point is ready, as its tasks share it.

use std::sync::atomic::{AtomicBool, Ordering};
use std::sync::Arc;

use vstd::prelude::*;

verus! {

/// Whether the policies that are served are those that were last written. Clones
/// share one flag.
///
/// The flag changes under shared references, so the value that a call finds there
/// is no part of any contract. What it is set to, and what is answered by it, is
/// decided by functions that take and return a `bool`.
#[derive(Debug)]
pub struct Readiness(Arc<AtomicBool>);

impl Clone for Readiness {
    /// The same flag: what is set by one is found by the other.
    fn clone(&self) -> (copy: Self)
        ensures
            copy == *self,
    {
        Readiness(self.0.clone())
    }
}

impl Readiness {
    /// A flag that starts as `ready`.
    pub fn new(ready: bool) -> Self {
        Readiness(Arc::new(AtomicBool::new(ready)))
    }

    /// Sets the flag, for all clones.
    pub fn set_ready(&self, ready: bool) {
        self.0.store(ready, Ordering::Release);
    }

    /// The flag as it is now.
    pub fn is_ready(&self) -> bool {
        self.0.load(Ordering::Acquire)
    }
}

} // verus!
