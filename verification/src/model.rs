use vstd::prelude::*;

verus! {

/// A channel as mathematics: what the receiver holds privately, what waits in
/// the shared queue, and how many senders are alive.
pub struct Model<T> {
    /// Values already moved to the receiver and not yet returned, oldest first.
    pub buffer: Seq<T>,
    /// Values in the shared queue, oldest first.
    pub queue: Seq<T>,
    /// The number of live sender handles.
    pub senders: nat,
}

impl<T> Model<T> {
    /// A channel as `channel` makes it: empty, with one sender.
    pub open spec fn fresh() -> Self {
        Model { buffer: Seq::empty(), queue: Seq::empty(), senders: 1 }
    }

    /// Everything that was sent and not yet returned, in the order in which
    /// the receiver will return it.
    pub open spec fn stream(self) -> Seq<T> {
        self.buffer + self.queue
    }

    /// The receiver has nothing to return yet and must wait.
    pub open spec fn idle(self) -> bool {
        self.stream().len() == 0 && self.senders > 0
    }

    /// The receiver has nothing to return and never will.
    pub open spec fn closed(self) -> bool {
        self.stream().len() == 0 && self.senders == 0
    }

    /// The channel after a sender has sent `value`.
    pub open spec fn after_send(self, value: T) -> Self {
        Model { queue: self.queue.push(value), ..self }
    }

    /// The channel after a sender was cloned.
    pub open spec fn after_clone(self) -> Self {
        Model { senders: self.senders + 1, ..self }
    }

    /// The channel after a sender was dropped.
    pub open spec fn after_drop(self) -> Self {
        Model {
            senders: if self.senders > 0 {
                (self.senders - 1) as nat
            } else {
                0
            },
            ..self
        }
    }

    /// What one look of the receiver returns: the oldest value, if there is
    /// one.
    pub open spec fn received(self) -> Option<T> {
        if self.buffer.len() > 0 {
            Some(self.buffer[0])
        } else if self.queue.len() > 0 {
            Some(self.queue[0])
        } else {
            None
        }
    }

    /// The channel after one look of the receiver. With values in the private
    /// buffer the oldest of them leaves; else the oldest of the shared queue
    /// leaves and the rest of the queue moves to the buffer; else nothing
    /// changes.
    pub open spec fn after_receive(self) -> Self {
        if self.buffer.len() > 0 {
            Model { buffer: self.buffer.drop_first(), ..self }
        } else if self.queue.len() > 0 {
            Model { buffer: self.queue.drop_first(), queue: Seq::empty(), ..self }
        } else {
            self
        }
    }

    /// The channel after `event`.
    pub open spec fn after(self, event: Event<T>) -> Self {
        match event {
            Event::Send(value) => self.after_send(value),
            Event::Clone => self.after_clone(),
            Event::Drop => self.after_drop(),
            Event::Receive => self.after_receive(),
        }
    }

    /// The channel after all of `events`, in their order.
    pub open spec fn after_all(self, events: Seq<Event<T>>) -> Self
        decreases events.len(),
    {
        if events.len() == 0 {
            self
        } else {
            self.after_all(events.drop_last()).after(events.last())
        }
    }

    /// The values that the receiver has returned in the course of `events`, in
    /// the order in which it returned them.
    pub open spec fn returned(self, events: Seq<Event<T>>) -> Seq<T>
        decreases events.len(),
    {
        if events.len() == 0 {
            Seq::empty()
        } else {
            let earlier = self.returned(events.drop_last());
            match (events.last(), self.after_all(events.drop_last()).received()) {
                (Event::Receive, Some(value)) => earlier.push(value),
                _ => earlier,
            }
        }
    }
}

/// What can happen to a channel. `Receive` is one look of the receiver: it
/// returns the oldest value if there is one, and changes nothing if not.
pub enum Event<T> {
    Send(T),
    Clone,
    Drop,
    Receive,
}

/// The values that `events` send, in their order.
pub open spec fn sent<T>(events: Seq<Event<T>>) -> Seq<T>
    decreases events.len(),
{
    if events.len() == 0 {
        Seq::empty()
    } else {
        match events.last() {
            Event::Send(value) => sent(events.drop_last()).push(value),
            _ => sent(events.drop_last()),
        }
    }
}

/// A burst: one `Send` for each of `values`, then as many looks of the
/// receiver.
pub open spec fn burst<T>(values: Seq<T>) -> Seq<Event<T>> {
    Seq::new(
        2 * values.len(),
        |i: int|
            if i < values.len() {
                Event::Send(values[i])
            } else {
                Event::Receive
            },
    )
}

/// A look of the receiver returns the oldest value that was sent and not yet
/// returned, and leaves the others in their order, whether they stand in the
/// receiver's buffer or in the shared queue and whether or not a sender is
/// alive. With nothing to return it changes nothing.
pub proof fn law_receive_takes_the_oldest<T>(m: Model<T>)
    ensures
        m.stream().len() > 0 ==> m.received() == Some(m.stream()[0])
            && m.after_receive().stream() == m.stream().drop_first(),
        m.stream().len() == 0 ==> m.received() is None && m.after_receive() == m,
        m.after_receive().senders == m.senders,
{
    if m.buffer.len() > 0 {
        assert(m.after_receive().stream() =~= m.stream().drop_first());
    } else if m.queue.len() > 0 {
        assert(m.after_receive().stream() =~= m.stream().drop_first());
    }
}

/// The receiver is told to wait only while a sender is alive: once the last
/// one is counted out, a look at an empty channel reports the end, and the
/// end is never reported while a value is left.
pub proof fn law_end_of_stream<T>(m: Model<T>)
    ensures
        m.senders == 0 ==> !m.idle(),
        m.closed() <==> m.received() is None && !m.idle(),
        m.senders == 1 && m.stream().len() == 0 ==> m.after_drop().closed(),
        m.after_drop().stream() == m.stream(),
{
}

/// A channel whose only sender was dropped at once reports the end; one into
/// which that sender had sent a value returns the value first, and reports the
/// end at the next look.
pub proof fn law_drain_before_close<T>(value: T)
    ensures
        Model::<T>::fresh().after_drop().closed(),
        Model::<T>::fresh().after_send(value).after_drop().received() == Some(value),
        !Model::<T>::fresh().after_send(value).after_drop().closed(),
        Model::<T>::fresh().after_send(value).after_drop().after_receive().closed(),
{
    let m = Model::<T>::fresh().after_send(value).after_drop();
    assert(m.stream() =~= seq![value]);
    law_receive_takes_the_oldest(m);
}

/// Nothing is lost, doubled or reordered: whatever happens to a channel, the
/// values that the receiver has returned, followed by those that it has yet to
/// return, are the values that the channel held at first followed by those
/// that were sent, in the order in which they were sent.
pub proof fn law_nothing_lost_or_reordered<T>(m: Model<T>, events: Seq<Event<T>>)
    ensures
        m.returned(events) + m.after_all(events).stream() == m.stream() + sent(events),
    decreases events.len(),
{
    if events.len() == 0 {
        assert(m.returned(events) + m.after_all(events).stream() =~= m.stream() + sent(events));
    } else {
        let earlier = events.drop_last();
        let before = m.after_all(earlier);
        law_nothing_lost_or_reordered(m, earlier);
        law_receive_takes_the_oldest(before);
        assert(m.returned(earlier) + before.stream() == m.stream() + sent(earlier));
        match events.last() {
            Event::Send(value) => {
                assert(before.after_send(value).stream() =~= before.stream().push(value));
                assert(m.returned(earlier) + before.stream().push(value) =~= (m.returned(earlier)
                    + before.stream()).push(value));
                assert(m.stream() + sent(earlier).push(value) =~= (m.stream() + sent(
                    earlier,
                )).push(value));
            },
            Event::Clone => {},
            Event::Drop => {},
            Event::Receive => {
                if before.stream().len() > 0 {
                    assert(m.returned(earlier).push(before.stream()[0])
                        + before.stream().drop_first() =~= m.returned(earlier) + before.stream());
                }
            },
        }
    }
}

/// Each sender's values arrive in the order in which it sent them: of the
/// values that `own` picks out, those that the receiver has returned are the
/// first of those that the channel held and that were sent, in that order.
pub proof fn law_fifo_per_sender<T>(
    m: Model<T>,
    events: Seq<Event<T>>,
    own: spec_fn(T) -> bool,
)
    ensures
        m.returned(events).filter(own).is_prefix_of((m.stream() + sent(events)).filter(own)),
{
    law_nothing_lost_or_reordered(m, events);
    Seq::filter_distributes_over_add(m.returned(events), m.after_all(events).stream(), own);
}

/// Many senders, one receiver: once the receiver has nothing more to return,
/// it has returned each value that was sent once, in the order in which the
/// sends took place; and if by then every sender was dropped, its next look
/// reports the end.
pub proof fn law_fan_in<T>(events: Seq<Event<T>>)
    requires
        Model::<T>::fresh().after_all(events).stream().len() == 0,
    ensures
        Model::<T>::fresh().returned(events) == sent(events),
        Model::<T>::fresh().after_all(events).senders == 0 ==> Model::<T>::fresh().after_all(
            events,
        ).closed(),
{
    let m = Model::<T>::fresh();
    law_nothing_lost_or_reordered(m, events);
    assert(m.returned(events) + m.after_all(events).stream() =~= m.returned(events));
    assert(m.stream() + sent(events) =~= sent(events));
}

/// A burst comes out as it went in: after `values` were sent into an empty
/// channel, as many looks of the receiver return exactly `values`, in order,
/// and leave the channel empty, wherever the values stood in between.
pub proof fn law_burst_in_order<T>(m: Model<T>, values: Seq<T>)
    requires
        m.stream().len() == 0,
    ensures
        m.returned(burst(values)) == values,
        m.after_all(burst(values)).stream().len() == 0,
        m.after_all(burst(values)).senders == m.senders,
{
    lemma_burst_prefix(m, values, 2 * values.len());
    assert(burst(values).take(2 * values.len() as int) =~= burst(values));
    assert(values.take(values.len() as int) =~= values);
}

/// The first `n` events of a burst: while values are sent nothing is
/// returned and all of them wait; from then on each look returns the next.
proof fn lemma_burst_prefix<T>(m: Model<T>, values: Seq<T>, n: nat)
    requires
        m.stream().len() == 0,
        n <= 2 * values.len(),
    ensures
        ({
            let events = burst(values).take(n as int);
            let k = if n <= values.len() {
                0
            } else {
                n - values.len()
            };
            let pushed = if n <= values.len() {
                n as int
            } else {
                values.len() as int
            };
            &&& m.returned(events) == values.take(k)
            &&& m.after_all(events).stream() == values.take(pushed).skip(k)
            &&& m.after_all(events).senders == m.senders
        }),
    decreases n,
{
    let events = burst(values).take(n as int);
    if n == 0 {
        assert(m.returned(events) =~= values.take(0));
        assert(m.after_all(events).stream() =~= values.take(0).skip(0));
    } else {
        let earlier = burst(values).take(n - 1);
        assert(events.drop_last() =~= earlier);
        lemma_burst_prefix(m, values, (n - 1) as nat);
        let before = m.after_all(earlier);
        law_receive_takes_the_oldest(before);
        if n <= values.len() {
            assert(events.last() == Event::Send(values[n - 1]));
            assert(before.after_send(values[n - 1]).stream() =~= before.stream().push(
                values[n - 1],
            ));
            assert(values.take(n - 1).skip(0).push(values[n - 1]) =~= values.take(n as int).skip(
                0,
            ));
        } else {
            let k = n - values.len();
            assert(events.last() == Event::<T>::Receive);
            let waiting = values.take(values.len() as int).skip(k - 1);
            assert(before.stream() == waiting);
            assert(waiting.len() > 0);
            assert(waiting[0] == values[k - 1]);
            assert(values.take(k - 1).push(values[k - 1]) =~= values.take(k));
            assert(waiting.drop_first() =~= values.take(values.len() as int).skip(k));
        }
    }
}

} // verus!
