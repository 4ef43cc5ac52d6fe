//! Values that several owners hold at once.
use vstd::prelude::*;

use std::sync::Arc;

verus! {

/// `Arc::clone`: one more owner of the same value.
#[verifier::external_body]
pub(crate) fn share<T>(a: &Arc<T>) -> (r: Arc<T>)
    ensures
        r == *a,
{
    Arc::clone(a)
}

} // verus!
