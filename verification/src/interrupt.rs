//! The flag by which another thread asks a solver to stop.
use std::sync::atomic::AtomicBool;
use std::sync::atomic::Ordering;
use std::sync::Arc;
use vstd::prelude::*;

verus! {

/// A flag that is shared between threads. A clone is the same flag.
///
/// What a read returns depends on what other threads have done, so nothing is stated
/// of it: a solver that reads the flag is verified for either answer.
pub struct AtomicFlag {
    flag: Arc<AtomicBool>,
}

impl AtomicFlag {
    /// A flag that is not set.
    pub fn new() -> AtomicFlag {
        AtomicFlag { flag: Arc::new(AtomicBool::new(false)) }
    }

    /// Sets the flag.
    pub fn set(&self) {
        self.flag.store(true, Ordering::SeqCst);
    }

    /// Clears the flag.
    pub fn clear(&self) {
        self.flag.store(false, Ordering::SeqCst);
    }

    /// Whether the flag is set at the moment.
    pub fn is_set(&self) -> bool {
        self.flag.load(Ordering::SeqCst)
    }

    /// Another handle on the same flag: it is this handle over again.
    pub fn share(&self) -> (r: AtomicFlag)
        ensures
            r == *self,
    {
        AtomicFlag { flag: self.flag.clone() }
    }
}

} // verus!
