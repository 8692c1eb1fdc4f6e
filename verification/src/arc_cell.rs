//! A cell holding a strong reference that can be read and replaced through
//! a shared reference, from any thread.

use std::sync::Arc;
use vstd::prelude::*;
use vstd::rwlock::{RwLock, RwLockPredicate};

verus! {

/// The cell accepts every `Arc`.
pub struct AnyArc;

impl<T> RwLockPredicate<Arc<T>> for AnyArc {
    open spec fn inv(self, v: Arc<T>) -> bool {
        true
    }
}

/// Calls `<Arc<T> as Clone>::clone`, which makes another pointer to the
/// same allocation; it claims that the copy points to the same value.
#[verifier::external_body]
fn clone_arc<T>(a: &Arc<T>) -> (res: Arc<T>)
    ensures
        res == *a,
{
    a.clone()
}

/// A cell for containing a strong reference.
///
/// The reference is held under an exclusive lock: `get` and `set` each take
/// it out, work on it, and put a reference back, so that concurrent callers
/// see one another's calls in some order.
pub struct ArcCell<T> {
    inner: RwLock<Arc<T>, AnyArc>,
}

impl<T> ArcCell<T> {
    /// Constructs an `ArcCell` which initially points to `value`.
    pub fn new(value: Arc<T>) -> ArcCell<T> {
        ArcCell { inner: RwLock::new(value, Ghost(AnyArc)) }
    }

    /// Gets the pointer contained in this cell as it exists at this moment.
    ///
    /// Which pointer that is depends on the `set` calls of other threads, so
    /// nothing is stated of it.
    pub fn get(&self) -> Arc<T> {
        let (ptr, handle) = self.inner.acquire_write();
        let res = clone_arc(&ptr);
        handle.release_write(ptr);
        res
    }

    /// Sets the pointer for the next observer and returns the pointer that
    /// the cell held until then.
    ///
    /// Which pointer that was depends on the calls of other threads, so
    /// nothing is stated of it.
    pub fn set(&self, value: Arc<T>) -> Arc<T> {
        let (old, handle) = self.inner.acquire_write();
        handle.release_write(value);
        old
    }
}

} // verus!
