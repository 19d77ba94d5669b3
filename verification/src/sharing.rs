//! Shared values.

use std::sync::Arc;

use vstd::prelude::*;

verus! {

/// Shares a value: `Arc::clone` gives another pointer to the same value.
#[verifier::external_body]
pub(crate) fn share<T: ?Sized>(value: &Arc<T>) -> (shared: Arc<T>)
    ensures
        shared == *value,
{
    Arc::clone(value)
}

pub(crate) fn share_option<T: ?Sized>(value: &Option<Arc<T>>) -> (shared: Option<Arc<T>>)
    ensures
        shared == *value,
{
    match value {
        Some(value) => Some(share(value)),
        None => None,
    }
}

pub(crate) fn some_shared<T: ?Sized>(value: &Arc<T>) -> (shared: Option<Arc<T>>)
    ensures
        shared == Some(*value),
{
    Some(share(value))
}

} // verus!
