//! Poll results and the waker plumbing that the queue hands wakers through.

use std::task::{Context, Waker};
use vstd::prelude::*;

verus! {

#[verifier::external_type_specification]
#[verifier::external_body]
pub struct ExWaker(Waker);

#[verifier::external_type_specification]
#[verifier::external_body]
pub struct ExContext<'a>(Context<'a>);

/// Whether an operation has completed: `Ready` with its value, or `Pending`,
/// in which case the caller's waker has been registered.
#[derive(Debug, PartialEq, Eq)]
pub enum Poll<T> {
    Ready(T),
    Pending,
}

/// Calls `std::task::Context::waker`, which hands out the waker of the task
/// being polled. Nothing is claimed of the waker: it is carried, never inspected.
#[verifier::external_body]
pub(crate) fn context_waker<'a, 'b>(cx: &'a Context<'b>) -> &'a Waker {
    cx.waker()
}

/// Calls `<Waker as Clone>::clone`. Nothing is claimed of the copy: a waker is
/// opaque here, and the copy is only stored to be woken later.
#[verifier::external_body]
pub(crate) fn clone_waker(waker: &Waker) -> Waker {
    waker.clone()
}

/// Calls `std::task::Waker::wake`, which consumes the waker and wakes its task.
/// Nothing is claimed: the effect lies outside this library.
#[verifier::external_body]
pub(crate) fn wake_waker(waker: Waker) {
    waker.wake()
}

} // verus!
