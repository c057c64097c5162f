use crate::state::Inner;
use crate::sync::{
    guarded, lock, lock_quietly, new_condvar, new_mutex, notify_one, share, wait_for_value, Shared,
};
use std::collections::VecDeque;
use std::sync::Arc;
use vstd::prelude::*;

verus! {

/// The sending side of a channel. Every clone counts as one more sender, and
/// the channel ends when the last of them is dropped.
#[verifier::reject_recursive_types(T)]
pub struct Sender<T> {
    shared: Arc<Shared<T>>,
}

/// The receiving side of a channel. There is one per channel.
#[verifier::reject_recursive_types(T)]
pub struct Receiver<T> {
    shared: Arc<Shared<T>>,
    buffer: VecDeque<T>,
}

impl<T> Sender<T> {
    /// The channel that this handle belongs to.
    pub closed spec fn shared(&self) -> Shared<T> {
        *self.shared
    }

    /// Puts `t` behind everything that was sent before and wakes the receiver.
    /// Never waits for the receiver, and does not notice if it is gone.
    pub fn send(&mut self, t: T)
        ensures
            final(self).shared() == old(self).shared(),
    {
        {
            let mut guard = lock(&self.shared.inner);
            let inner = guarded(&mut guard);
            inner.push(t);
        }
        notify_one(&self.shared.available);
    }
}

impl<T> Clone for Sender<T> {
    /// Another sender of the same channel, counted under the lock before it
    /// exists.
    fn clone(&self) -> (other: Self)
        ensures
            other.shared() == self.shared(),
    {
        {
            let mut guard = lock(&self.shared.inner);
            let inner = guarded(&mut guard);
            if inner.sender_count() < usize::MAX {
                inner.add_sender();
            }
        }
        Sender { shared: share(&self.shared) }
    }
}

impl<T> Drop for Sender<T> {
    /// Counts this sender out under the lock, and then, with the lock given
    /// up, wakes the receiver if no sender is left. Where the lock is poisoned
    /// nothing can be counted, and the receiver is woken all the same, so that
    /// it meets the poisoned lock itself.
    fn drop(&mut self)
        ensures
            final(self).shared() == old(self).shared(),
        opens_invariants none
        no_unwind
    {
        let mut was_last = true;
        match lock_quietly(&self.shared.inner) {
            Some(mut guard) => {
                let inner = guarded(&mut guard);
                if inner.sender_count() > 0 {
                    was_last = inner.remove_sender();
                }
            },
            None => {},
        }
        if was_last {
            notify_one(&self.shared.available);
        }
    }
}

impl<T> Receiver<T> {
    /// The channel that this handle belongs to.
    pub closed spec fn shared(&self) -> Shared<T> {
        *self.shared
    }

    /// The values that were taken out of the shared queue and not yet
    /// returned, oldest first.
    pub closed spec fn buffered(&self) -> Seq<T> {
        self.buffer@
    }

    /// Returns the oldest value that was sent and not yet returned, waiting
    /// for one while a sender is alive, or `None` once nothing is left and no
    /// sender is alive.
    pub fn receive(&mut self) -> (value: Option<T>)
        ensures
            final(self).shared() == old(self).shared(),
            old(self).buffered().len() > 0 ==> value == Some(old(self).buffered()[0])
                && final(self).buffered() == old(self).buffered().drop_first(),
            value is None ==> final(self).buffered().len() == 0,
    {
        let buffered = self.buffer.pop_front();
        if buffered.is_some() {
            return buffered;
        }
        let mut out: Option<T> = None;
        {
            let guard = lock(&self.shared.inner);
            let _held = wait_for_value(&self.shared.available, guard, &mut self.buffer, &mut out);
        }
        out
    }
}

/// A new channel: one sender and the receiver, on an empty queue.
pub fn channel<T>() -> (pair: (Sender<T>, Receiver<T>))
    ensures
        pair.0.shared() == pair.1.shared(),
        pair.1.buffered() == Seq::<T>::empty(),
{
    let shared = Arc::new(Shared { inner: new_mutex(Inner::new()), available: new_condvar() });
    let sender = Sender { shared: share(&shared) };
    let receiver = Receiver { shared, buffer: VecDeque::new() };
    (sender, receiver)
}

} // verus!
