//! Shared ownership of one value by several holders.

use std::sync::Arc;
use vstd::prelude::*;

verus! {

/// Another pointer to the same value: `Arc::clone`, which copies the pointer
/// and leaves the value it points to untouched, so what the copy points to
/// equals what the argument points to.
#[verifier::external_body]
pub(crate) fn share<T>(pointer: &Arc<T>) -> (copy: Arc<T>)
    ensures
        copy == *pointer,
{
    Arc::clone(pointer)
}

} // verus!
