//! The lock and the condition variable of the standard library, as far as
//! the handles use them.
//!
//! Nothing here is proved. The contracts say nothing of what a lock holds:
//! whoever takes it finds some value of the type behind it, and what is known
//! of that value is what is known of every value of its type.

use vstd::prelude::*;
use std::sync::{Arc, Condvar, Mutex, MutexGuard, WaitTimeoutResult};
use std::time::Duration;

verus! {

/// `std::sync::Mutex`, opaque.
#[verifier::external_type_specification]
#[verifier::external_body]
#[verifier::reject_recursive_types(T)]
pub struct ExMutex<T: ?Sized>(Mutex<T>);

/// `std::sync::MutexGuard`, opaque.
#[verifier::external_type_specification]
#[verifier::external_body]
#[verifier::reject_recursive_types(T)]
pub struct ExMutexGuard<'a, T: ?Sized + 'a>(MutexGuard<'a, T>);

/// `std::sync::Condvar`, opaque.
#[verifier::external_type_specification]
#[verifier::external_body]
pub struct ExCondvar(Condvar);

/// `std::sync::WaitTimeoutResult`, opaque.
#[verifier::external_type_specification]
#[verifier::external_body]
pub struct ExWaitTimeoutResult(WaitTimeoutResult);

/// `Mutex::new`: a lock around `value`. Nothing is claimed of the result.
pub assume_specification<T>[ Mutex::<T>::new ](value: T) -> (m: Mutex<T>);

/// `Condvar::new`: a condition variable that nobody waits on yet. Nothing is
/// claimed of the result.
pub assume_specification[ Condvar::new ]() -> (cv: Condvar);

/// `Condvar::notify_one`: wakes one waiting thread, if there is one. It
/// returns nothing and nothing is claimed.
pub assume_specification[ Condvar::notify_one ](cv: &Condvar);

/// `WaitTimeoutResult::timed_out`: whether the wait ended because its time
/// ran out. Nothing is claimed of the answer.
pub assume_specification[ WaitTimeoutResult::timed_out ](r: &WaitTimeoutResult) -> (b: bool);

/// `Arc::clone`: another handle to the same allocation, hence equal to the
/// one it was made from.
#[verifier::external_body]
pub(crate) fn share<T>(handle: &Arc<T>) -> (r: Arc<T>)
    ensures
        r == *handle,
{
    handle.clone()
}

/// `Mutex::lock`: blocks until the lock is free and takes it. A poisoned lock
/// is taken all the same. Nothing is claimed of the guard.
///
/// The standard library leaves open what happens to a thread that asks for a
/// lock it holds: it may panic or never return. Every function of this crate
/// that takes the lock takes it once and gives it up before it returns.
#[verifier::external_body]
pub(crate) fn lock<T>(m: &Mutex<T>) -> (guard: MutexGuard<'_, T>) {
    match m.lock() {
        Ok(guard) => guard,
        Err(poisoned) => poisoned.into_inner(),
    }
}

/// `Deref::deref` of a guard: the value behind the lock. Nothing is claimed
/// of it.
#[verifier::external_body]
pub(crate) fn guarded<'a, 'b, T>(guard: &'a MutexGuard<'b, T>) -> (value: &'a T) {
    guard
}

/// `DerefMut::deref_mut` of a guard: the value behind the lock, to be
/// changed in place. Nothing is claimed of it.
#[verifier::external_body]
pub(crate) fn guarded_mut<'a, 'b, T>(guard: &'a mut MutexGuard<'b, T>) -> (value: &'a mut T) {
    guard
}

/// `Condvar::wait`: gives the lock up, sleeps until the condition variable is
/// notified or the thread wakes for no reason, and takes the lock again.
/// Nothing is claimed of the guard that comes back.
///
/// The standard library may panic where one condition variable is used with
/// more than one lock. This crate makes each together with one lock, in one
/// shared block, and waits on it with the guard of that lock only.
#[verifier::external_body]
pub(crate) fn wait<'a, T>(cv: &Condvar, guard: MutexGuard<'a, T>) -> (woken: MutexGuard<'a, T>) {
    match cv.wait(guard) {
        Ok(guard) => guard,
        Err(poisoned) => poisoned.into_inner(),
    }
}

/// `Condvar::wait_timeout`: as `wait`, with the same proviso, for no longer
/// than `timeout`. The second part of the result tells whether the time ran
/// out; nothing is claimed of either part.
#[verifier::external_body]
pub(crate) fn wait_timeout<'a, T>(cv: &Condvar, guard: MutexGuard<'a, T>, timeout: Duration) -> (woken:
    (MutexGuard<'a, T>, WaitTimeoutResult)) {
    match cv.wait_timeout(guard, timeout) {
        Ok(pair) => pair,
        Err(poisoned) => poisoned.into_inner(),
    }
}

} // verus!
