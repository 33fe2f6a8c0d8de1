//! Shared-ownership handles: cached layout results and font implementations
//! are handed out by reference counting and are immutable once built.

use std::sync::Arc;

use vstd::prelude::*;

verus! {

/// Relies on `std::sync::Arc::clone`: the clone is another handle to the
/// same allocation, so it carries the same value.
#[verifier::external_body]
pub fn arc_clone<T>(a: &Arc<T>) -> (r: Arc<T>)
    ensures
        r == *a,
{
    a.clone()
}

} // verus!
