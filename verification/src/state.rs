use crate::model::Model;
use std::collections::VecDeque;
use vstd::prelude::*;

verus! {

/// The state that every handle of one channel shares: the values that were
/// sent and not yet taken, oldest first, and the number of live senders.
pub struct Inner<T> {
    queue: VecDeque<T>,
    sender: usize,
}

impl<T> View for Inner<T> {
    type V = Model<T>;

    /// The channel that this state makes up with a receiver that holds
    /// nothing privately.
    open spec fn view(&self) -> Model<T> {
        Model { buffer: Seq::empty(), queue: self.queue(), senders: self.senders() }
    }
}

impl<T> Inner<T> {
    /// The queued values, oldest first.
    pub closed spec fn queue(&self) -> Seq<T> {
        self.queue@
    }

    /// The number of live sender handles.
    pub closed spec fn senders(&self) -> nat {
        self.sender as nat
    }

    /// The channel that this state makes up with a receiver that privately
    /// holds `buffer`.
    pub open spec fn with_buffer(&self, buffer: Seq<T>) -> Model<T> {
        Model { buffer, ..self@ }
    }

    /// The state of a fresh channel: nothing queued, one sender.
    pub fn new() -> (inner: Self)
        ensures
            inner@ == Model::<T>::fresh(),
    {
        Inner { queue: VecDeque::new(), sender: 1 }
    }

    /// The number of live sender handles.
    pub fn sender_count(&self) -> (count: usize)
        ensures
            count == self@.senders,
        opens_invariants none
        no_unwind
    {
        self.sender
    }

    /// The number of queued values.
    pub fn queued(&self) -> (count: usize)
        ensures
            count == self@.queue.len(),
    {
        self.queue.len()
    }

    /// Appends `value` behind everything that is queued.
    pub fn push(&mut self, value: T)
        ensures
            final(self)@ == old(self)@.after_send(value),
    {
        self.queue.push_back(value);
    }

    /// Counts one more sender.
    pub fn add_sender(&mut self)
        requires
            old(self)@.senders < usize::MAX,
        ensures
            final(self)@ == old(self)@.after_clone(),
    {
        self.sender = self.sender + 1;
    }

    /// Counts one sender less, and tells whether it was the last one: only
    /// then is the receiver owed a wakeup, since only then can a receiver that
    /// waits on an empty queue stop waiting without a value.
    pub fn remove_sender(&mut self) -> (was_last: bool)
        requires
            old(self)@.senders > 0,
        ensures
            final(self)@ == old(self)@.after_drop(),
            was_last == (final(self)@.senders == 0),
        opens_invariants none
        no_unwind
    {
        self.sender = self.sender - 1;
        self.sender == 0
    }

    /// One look of a receiver that privately holds `buffer`. With values in
    /// the buffer the oldest of them goes to `out`. Else the oldest queued
    /// value, if there is one, goes to `out` and the rest of the queue moves to
    /// the buffer in one exchange; with nothing to take `out` is `None` and
    /// nothing moves. The result tells whether the receiver has to wait:
    /// there is nothing to take and a sender is still alive.
    pub fn poll_into(&mut self, buffer: &mut VecDeque<T>, out: &mut Option<T>) -> (wait: bool)
        ensures
            wait == old(self).with_buffer(old(buffer)@).idle(),
            *final(out) == old(self).with_buffer(old(buffer)@).received(),
            final(self).with_buffer(final(buffer)@) == old(self).with_buffer(
                old(buffer)@,
            ).after_receive(),
    {
        let buffered = buffer.pop_front();
        if buffered.is_some() {
            *out = buffered;
            proof {
                assert(buffer@ =~= old(buffer)@.drop_first());
            }
            return false;
        }
        let front = self.queue.pop_front();
        let wait = match front {
            Some(_) => {
                if self.queue.len() != 0 {
                    std::mem::swap(&mut self.queue, buffer);
                }
                false
            },
            None => self.sender != 0,
        };
        *out = front;
        proof {
            if old(self).queue@.len() > 0 {
                assert(buffer@ =~= old(self).queue@.drop_first());
                assert(self.queue@ =~= Seq::<T>::empty());
            } else {
                assert(buffer@ =~= old(buffer)@);
            }
        }
        wait
    }
}

} // verus!
