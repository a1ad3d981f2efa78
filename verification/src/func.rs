//! Closures as functions: what a closure returns, for an argument on which it
//! can return one value only.

use vstd::prelude::*;
use std::sync::Arc;

verus! {

/// What `f` returns on `a`.
pub open spec fn result_of<A, B, F: Fn(A) -> B>(f: F, a: A) -> B {
    choose|b: B| call_ensures(f, (a,), b)
}

/// Whether `f` can be called on `a` and can return one value only: the one
/// that [`result_of`] names.
pub open spec fn settled<A, B, F: Fn(A) -> B>(f: F, a: A) -> bool {
    &&& call_requires(f, (a,))
    &&& forall|b: B| call_ensures(f, (a,), b) ==> b == result_of(f, a)
}

/// Whether `f` is settled on every one of `items`.
pub open spec fn settled_on<A, B, F: Fn(A) -> B>(f: F, items: Seq<A>) -> bool {
    forall|i: int| 0 <= i < items.len() ==> settled(f, #[trigger] items[i])
}

/// What `f` returns on a borrowed `a`.
pub open spec fn result_of_ref<A, B, F: Fn(&A) -> B>(f: F, a: A) -> B {
    choose|b: B| call_ensures(f, (&a,), b)
}

/// Whether `f` can be called on a borrowed `a` and can return one value only.
pub open spec fn settled_ref<A, B, F: Fn(&A) -> B>(f: F, a: A) -> bool {
    &&& call_requires(f, (&a,))
    &&& forall|b: B| call_ensures(f, (&a,), b) ==> b == result_of_ref(f, a)
}

/// Whether `f` is settled on every one of `items`, borrowed.
pub open spec fn settled_on_refs<A, B, F: Fn(&A) -> B>(f: F, items: Seq<A>) -> bool {
    forall|i: int| 0 <= i < items.len() ==> settled_ref(f, #[trigger] items[i])
}

/// A second handle on a shared value.
///
/// Calls `Arc::clone`, which hands back a pointer to the same allocation: the
/// value behind the new handle is the value behind the old one.
#[verifier::external_body]
pub(crate) fn share<T>(handle: &Arc<T>) -> (twin: Arc<T>)
    ensures
        twin == *handle,
{
    handle.clone()
}

} // verus!
