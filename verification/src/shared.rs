//! Values that several owners hold.

use std::sync::Arc;
use vstd::prelude::*;

verus! {

/// Another handle on the same value.
///
/// Calls `Arc::clone`, of which std says that it makes a new handle that points to the same
/// allocation: reading through either gives the same value.
#[verifier::external_body]
pub(crate) fn share<T>(handle: &Arc<T>) -> (r: Arc<T>)
    ensures
        r == *handle,
{
    Arc::clone(handle)
}

/// A list of handles on the same values.
pub(crate) fn share_all<T>(handles: &Vec<Arc<T>>) -> (r: Vec<Arc<T>>)
    ensures
        r@ == handles@,
{
    let mut copy: Vec<Arc<T>> = Vec::new();
    let mut i: usize = 0;
    while i < handles.len()
        invariant
            i <= handles@.len(),
            copy@ == handles@.take(i as int),
        decreases handles@.len() - i,
    {
        copy.push(share(&handles[i]));
        i = i + 1;
        proof {
            assert(copy@ =~= handles@.take(i as int));
        }
    }
    proof {
        assert(handles@.take(i as int) =~= handles@);
    }
    copy
}

} // verus!
