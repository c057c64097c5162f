use crate::state::Inner;
use std::collections::VecDeque;
use std::sync::{Arc, Condvar, Mutex, MutexGuard};
use vstd::prelude::*;

verus! {

/// `std::sync::Mutex`, carried as an opaque value.
#[verifier::external_type_specification]
#[verifier::external_body]
#[verifier::reject_recursive_types(T)]
pub struct ExMutex<T: ?Sized>(Mutex<T>);

/// `std::sync::MutexGuard`, carried as an opaque value.
#[verifier::external_type_specification]
#[verifier::external_body]
#[verifier::reject_recursive_types(T)]
pub struct ExMutexGuard<'a, T: ?Sized + 'a>(MutexGuard<'a, T>);

/// `std::sync::Condvar`, carried as an opaque value.
#[verifier::external_type_specification]
#[verifier::external_body]
pub struct ExCondvar(Condvar);

/// What the handles of one channel share: the state behind its lock, and the
/// condition on which the receiver waits.
#[verifier::reject_recursive_types(T)]
pub struct Shared<T> {
    pub(crate) inner: Mutex<Inner<T>>,
    pub(crate) available: Condvar,
}

/// `Mutex::new`: a lock around `inner`. Nothing is claimed of the result: what
/// a lock holds is known only to the thread that has acquired it.
#[verifier::external_body]
pub(crate) fn new_mutex<T>(inner: Inner<T>) -> Mutex<Inner<T>> {
    Mutex::new(inner)
}

/// `Condvar::new`: a condition that nobody waits on yet.
#[verifier::external_body]
pub(crate) fn new_condvar() -> Condvar {
    Condvar::new()
}

/// `Arc::clone`: one more reference to the same shared value.
#[verifier::external_body]
pub(crate) fn share<T>(shared: &Arc<Shared<T>>) -> (other: Arc<Shared<T>>)
    ensures
        other == *shared,
{
    Arc::clone(shared)
}

/// `Mutex::lock`, for the operations that give up on a poisoned lock: the
/// calling thread blocks until it holds the lock, and panics if a thread
/// panicked while it held the lock. Nothing is claimed of the state that the
/// guard gives access to: other threads may have changed it at will.
#[verifier::external_body]
pub(crate) fn lock<'a, T>(mutex: &'a Mutex<Inner<T>>) -> MutexGuard<'a, Inner<T>> {
    mutex.lock().unwrap()
}

/// `Mutex::lock`, for a destructor, which must not unwind: the calling thread
/// blocks until it holds the lock, and gets `None` in place of a panic if the
/// lock is poisoned. Claimed without proof: that the call does not unwind,
/// which `std` promises as long as the calling thread does not hold the lock
/// already.
#[verifier::external_body]
pub(crate) fn lock_quietly<'a, T>(mutex: &'a Mutex<Inner<T>>) -> Option<MutexGuard<'a, Inner<T>>>
    opens_invariants none
    no_unwind
{
    mutex.lock().ok()
}

/// `DerefMut::deref_mut` of a guard: the state behind the lock that `guard`
/// holds. Claimed without proof: that the call does not unwind.
#[verifier::external_body]
pub(crate) fn guarded<'a, 'b, T>(guard: &'a mut MutexGuard<'b, Inner<T>>) -> &'a mut Inner<T>
    opens_invariants none
    no_unwind
{
    &mut **guard
}

/// `Condvar::notify_one`: wakes one thread that waits on `available`, if there
/// is one. Claimed without proof: that the call does not unwind.
#[verifier::external_body]
pub(crate) fn notify_one(available: &Condvar)
    opens_invariants none
    no_unwind
{
    available.notify_one()
}

/// `Condvar::wait_while`: gives up the lock and sleeps until `poll_into` on
/// the state behind it says that the receiver need not wait, looking again
/// after every wakeup, then returns with the lock held again; panics if the
/// lock is poisoned. `poll_into` leaves `buffer` and `out` as they were each
/// time it says to wait, so they hold what its last call left there. Claimed
/// of that: if no value came out, nothing was moved to the buffer.
#[verifier::external_body]
pub(crate) fn wait_for_value<'a, T>(
    available: &Condvar,
    guard: MutexGuard<'a, Inner<T>>,
    buffer: &mut VecDeque<T>,
    out: &mut Option<T>,
) -> (held: MutexGuard<'a, Inner<T>>)
    requires
        old(buffer)@.len() == 0,
        *old(out) is None,
    ensures
        *final(out) is None ==> final(buffer)@.len() == 0,
{
    available.wait_while(guard, |inner| inner.poll_into(buffer, out)).unwrap()
}

} // verus!
