//! The task waker, carried through the library as an opaque value.

use std::task::Waker;
use vstd::prelude::*;

verus! {

/// `std::task::Waker`: the library stores and hands back wakers, and never
/// looks inside one.
#[verifier::external_type_specification]
#[verifier::external_body]
pub struct ExWaker(Waker);

/// Calls `Waker::clone`: the result is a clone of `waker` (std documents
/// that it wakes the same task).
#[verifier::external_body]
pub(crate) fn clone_waker(waker: &Waker) -> (copy: Waker)
    ensures
        cloned::<Waker>(*waker, copy),
{
    waker.clone()
}

/// Calls `Waker::will_wake`. std documents the answer as a best-effort
/// comparison of the two wakers' data pointers and vtables: it rests on
/// addresses, so no clause states it and callers are verified for both answers.
#[verifier::external_body]
pub(crate) fn wakes_same_task(waker: &Waker, other: &Waker) -> (same: bool) {
    waker.will_wake(other)
}

} // verus!
