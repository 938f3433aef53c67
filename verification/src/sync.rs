use std::sync::Arc;

use vstd::prelude::*;

verus! {

/// `Arc::clone` of std: another pointer to the same allocation. The contract claims that
/// it stands for the same value.
#[verifier::external_body]
pub(crate) fn arc_clone<T>(a: &Arc<T>) -> (r: Arc<T>)
    ensures
        r == *a,
{
    Arc::clone(a)
}

} // verus!
