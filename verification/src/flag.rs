//! A liveness flag: raised when made, lowered once, and readable by every
//! thread that holds a copy.

use crate::pointer::share;
use std::sync::atomic::AtomicBool;
use std::sync::atomic::Ordering;
use std::sync::Arc;
use vstd::prelude::*;

verus! {

/// A shared flag that tells other threads that one side is gone. Nothing
/// can be said of what a reader finds: another thread may lower the flag at
/// any moment.
pub struct Flag {
    raised: Arc<AtomicBool>,
}

/// Lowers the flag behind the pointer with `AtomicBool::store`, relaxed.
/// A relaxed store of a `bool` does not panic, so the call does not unwind.
#[verifier::external_body]
fn store_lowered(flag: &Arc<AtomicBool>)
    opens_invariants none
    no_unwind
{
    flag.store(false, Ordering::Relaxed);
}

impl Flag {
    /// A new flag, raised.
    pub fn new() -> (flag: Self) {
        Flag { raised: Arc::new(AtomicBool::new(true)) }
    }

    /// A handle on the same flag: whoever lowers one lowers the other.
    pub fn share(&self) -> (flag: Self)
        ensures
            flag == *self,
    {
        Flag { raised: share(&self.raised) }
    }

    /// Whether the flag was still raised when asked.
    pub fn is_raised(&self) -> (raised: bool) {
        self.raised.load(Ordering::Relaxed)
    }

    /// Lowers the flag, for good.
    pub fn lower(&self)
        opens_invariants none
        no_unwind
    {
        store_lowered(&self.raised);
    }
}

} // verus!
