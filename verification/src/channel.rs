//! The bounded event channel between the request handlers and the dispatch
//! loop. Producers never wait: when the channel is full the oldest unread
//! event is dropped, and the consumer is told how many it missed.

use std::collections::VecDeque;
use vstd::prelude::*;
use crate::event::{Event, EventModel};

verus! {

/// The capacity of the channel between the request handlers and the
/// dispatch loop.
pub const DEFAULT_CAPACITY: usize = 32;

/// Why a receive delivered no event.
#[derive(Clone, Copy, Debug, PartialEq, Eq)]
pub enum ChannelError {
    /// The consumer fell behind and this many events were dropped before the
    /// next one that can be delivered. Informational: receiving goes on.
    Lagged(u64),
    /// Nothing has been published that was not yet delivered: the consumer waits.
    Empty,
}

/// The channel as a mathematical value.
pub struct ChannelModel {
    /// How many unread events are retained at most.
    pub capacity: nat,
    /// The unread events, oldest first.
    pub pending: Seq<EventModel>,
    /// How many events were dropped since the consumer was last told.
    pub missed: nat,
    /// Whether the consumer is registered.
    pub consumer: bool,
}

impl ChannelModel {
    pub open spec fn well_formed(self) -> bool {
        &&& 0 < self.capacity
        &&& self.pending.len() <= self.capacity
        &&& self.missed <= u64::MAX
    }

    /// A fresh channel: nothing pending, nothing missed, the consumer registered.
    pub open spec fn fresh(capacity: nat) -> ChannelModel {
        ChannelModel { capacity, pending: Seq::empty(), missed: 0, consumer: true }
    }

    /// The channel after `event` was published. Without a consumer nothing
    /// is recorded. A full channel drops its oldest event and counts it,
    /// the count stopping at `u64::MAX`.
    pub open spec fn publish(self, event: EventModel) -> ChannelModel {
        if !self.consumer {
            self
        } else if self.pending.len() >= self.capacity {
            ChannelModel {
                pending: self.pending.skip(1).push(event),
                missed: if self.missed < u64::MAX {
                    self.missed + 1
                } else {
                    self.missed
                },
                ..self
            }
        } else {
            ChannelModel { pending: self.pending.push(event), ..self }
        }
    }

    /// What the next receive returns: the loss, where there is one to
    /// report, else the oldest unread event.
    pub open spec fn receive_result(self) -> Result<EventModel, ChannelError> {
        if self.missed > 0 {
            Err(ChannelError::Lagged(self.missed as u64))
        } else if self.pending.len() > 0 {
            Ok(self.pending[0])
        } else {
            Err(ChannelError::Empty)
        }
    }

    /// The channel after the next receive.
    pub open spec fn after_receive(self) -> ChannelModel {
        if self.missed > 0 {
            ChannelModel { missed: 0, ..self }
        } else if self.pending.len() > 0 {
            ChannelModel { pending: self.pending.skip(1), ..self }
        } else {
            self
        }
    }

    /// The channel after the events of `events` were published in order.
    pub open spec fn publish_all(self, events: Seq<EventModel>) -> ChannelModel
        decreases events.len(),
    {
        if events.len() == 0 {
            self
        } else {
            self.publish_all(events.drop_last()).publish(events.last())
        }
    }

    /// The channel after `n` receives.
    pub open spec fn drained(self, n: nat) -> ChannelModel
        decreases n,
    {
        if n == 0 {
            self
        } else {
            self.after_receive().drained((n - 1) as nat)
        }
    }

    /// What `n` receives in a row return, first receive first.
    pub open spec fn deliveries(self, n: nat) -> Seq<Result<EventModel, ChannelError>>
        decreases n,
    {
        if n == 0 {
            Seq::empty()
        } else {
            seq![self.receive_result()] + self.after_receive().deliveries((n - 1) as nat)
        }
    }
}

/// The events of `events` as mathematical values, in the same order.
pub open spec fn event_models(events: Seq<Event>) -> Seq<EventModel> {
    events.map_values(|e: Event| e@)
}

/// What a receive returned, the event taken as a mathematical value.
pub open spec fn outcome_model(outcome: Result<Event, ChannelError>) -> Result<
    EventModel,
    ChannelError,
> {
    match outcome {
        Ok(event) => Ok(event@),
        Err(e) => Err(e),
    }
}

/// How many of `total` events do not fit into `capacity` slots.
pub open spec fn excess(total: nat, capacity: nat) -> nat {
    if total > capacity {
        (total - capacity) as nat
    } else {
        0
    }
}

/// Publishing a run of events retains the most recent ones, as many as the
/// channel has room for, in publish order, and counts the rest as missed.
pub proof fn lemma_publish_all(s: ChannelModel, events: Seq<EventModel>)
    requires
        s.well_formed(),
        s.consumer,
        s.missed + excess(s.pending.len() + events.len(), s.capacity) <= u64::MAX,
    ensures
        s.publish_all(events).well_formed(),
        s.publish_all(events).capacity == s.capacity,
        s.publish_all(events).consumer,
        s.publish_all(events).pending == (s.pending + events).skip(
            excess(s.pending.len() + events.len(), s.capacity) as int,
        ),
        s.publish_all(events).missed == s.missed + excess(
            s.pending.len() + events.len(),
            s.capacity,
        ),
    decreases events.len(),
{
    let all = s.pending + events;
    if events.len() == 0 {
        assert(all =~= s.pending);
        assert(s.pending.skip(0) =~= s.pending);
    } else {
        let front = events.drop_last();
        lemma_publish_all(s, front);
        let mid = s.publish_all(front);
        let before = s.pending + front;
        let x = excess(before.len(), s.capacity) as int;
        assert(all =~= before.push(events.last()));
        if mid.pending.len() >= mid.capacity {
            assert(mid.pending.skip(1).push(events.last()) =~= all.skip(x + 1));
        } else {
            assert(mid.pending.push(events.last()) =~= all.skip(x));
        }
    }
}

/// With no loss to report, receives hand out the pending events oldest first.
pub proof fn lemma_drain_in_order(s: ChannelModel, n: nat)
    requires
        s.well_formed(),
        s.missed == 0,
        n <= s.pending.len(),
    ensures
        s.deliveries(n) == Seq::new(n, |i: int| Ok::<EventModel, ChannelError>(s.pending[i])),
        s.drained(n) == (ChannelModel { pending: s.pending.skip(n as int), ..s }),
    decreases n,
{
    if n == 0 {
        assert(s.pending.skip(0) =~= s.pending);
        assert(s.deliveries(n) =~= Seq::new(n, |i: int| Ok::<EventModel, ChannelError>(s.pending[i])));
    } else {
        let t = s.after_receive();
        lemma_drain_in_order(t, (n - 1) as nat);
        assert(t.pending.skip(n - 1) =~= s.pending.skip(n as int));
        assert(s.deliveries(n) =~= Seq::new(n, |i: int| Ok::<EventModel, ChannelError>(s.pending[i])));
    }
}

/// Events reach the consumer in the order in which they were published, as
/// long as the channel does not overflow: after publishing `events` into a
/// channel that has room for them, that many receives return exactly
/// `events`, in order, and leave the channel empty.
pub proof fn law_delivery_in_publish_order(s: ChannelModel, events: Seq<EventModel>)
    requires
        s.well_formed(),
        s.consumer,
        s.missed == 0,
        s.pending.len() == 0,
        events.len() <= s.capacity,
    ensures
        s.publish_all(events).missed == 0,
        s.publish_all(events).pending == events,
        s.publish_all(events).deliveries(events.len()) == Seq::new(
            events.len(),
            |i: int| Ok::<EventModel, ChannelError>(events[i]),
        ),
        s.publish_all(events).drained(events.len()) == s,
{
    lemma_publish_all(s, events);
    let t = s.publish_all(events);
    assert((s.pending + events).skip(0) =~= events);
    lemma_drain_in_order(t, events.len());
    assert(t.pending.skip(events.len() as int) =~= s.pending);
    assert(t.deliveries(events.len()) =~= Seq::new(
        events.len(),
        |i: int| Ok::<EventModel, ChannelError>(events[i]),
    ));
}

/// Overflow is a bounded loss. However many events are published into a
/// fresh channel, no more than its capacity are retained. Where more were
/// published, the next receive reports how many were dropped, and the
/// receives after it return the retained events, which are the most recent
/// ones, in publish order.
pub proof fn law_overflow_is_bounded_loss(capacity: nat, events: Seq<EventModel>)
    requires
        0 < capacity < events.len() <= u64::MAX,
    ensures
        ({
            let t = ChannelModel::fresh(capacity).publish_all(events);
            let lost = (events.len() - capacity) as nat;
            &&& t.well_formed()
            &&& t.pending.len() == capacity
            &&& t.pending == events.skip(lost as int)
            &&& t.receive_result() == Err::<EventModel, ChannelError>(ChannelError::Lagged(lost as u64))
            &&& t.after_receive().deliveries(capacity) == Seq::new(
                capacity,
                |i: int| Ok::<EventModel, ChannelError>(events[lost + i]),
            )
            &&& t.after_receive().drained(capacity) == ChannelModel::fresh(capacity)
        }),
{
    let s = ChannelModel::fresh(capacity);
    lemma_publish_all(s, events);
    let t = s.publish_all(events);
    let lost = (events.len() - capacity) as nat;
    assert(s.pending + events =~= events);
    let u = t.after_receive();
    lemma_drain_in_order(u, capacity);
    assert(u.pending.skip(capacity as int) =~= Seq::<EventModel>::empty());
    assert(u.deliveries(capacity) =~= Seq::new(
        capacity,
        |i: int| Ok::<EventModel, ChannelError>(events[lost + i]),
    ));
}

/// One operation on the channel.
pub enum Op {
    /// A producer publishes this event.
    Publish(EventModel),
    /// The consumer receives.
    Receive,
}

/// What has happened on a channel since it was made.
pub struct History {
    /// The channel as it stands.
    pub channel: ChannelModel,
    /// Every event published, in publish order.
    pub published: Seq<EventModel>,
    /// Every event delivered, in the order of delivery.
    pub delivered: Seq<EventModel>,
    /// For each delivered event, its place in `published`.
    pub positions: Seq<int>,
    /// How many events were dropped for want of room.
    pub dropped: nat,
    /// The sum of the losses that receives have reported.
    pub reported: nat,
}

/// The history of a channel that was just made.
pub open spec fn begin(capacity: nat) -> History {
    History {
        channel: ChannelModel::fresh(capacity),
        published: Seq::empty(),
        delivered: Seq::empty(),
        positions: Seq::empty(),
        dropped: 0,
        reported: 0,
    }
}

/// The history after one more operation.
pub open spec fn advance(h: History, op: Op) -> History {
    match op {
        Op::Publish(event) => History {
            channel: h.channel.publish(event),
            published: h.published.push(event),
            dropped: if h.channel.consumer && h.channel.pending.len() >= h.channel.capacity {
                (h.dropped + 1) as nat
            } else {
                h.dropped
            },
            ..h
        },
        Op::Receive => match h.channel.receive_result() {
            Ok(event) => History {
                channel: h.channel.after_receive(),
                delivered: h.delivered.push(event),
                positions: h.positions.push(h.published.len() - h.channel.pending.len()),
                ..h
            },
            Err(ChannelError::Lagged(n)) => History {
                channel: h.channel.after_receive(),
                reported: (h.reported + n) as nat,
                ..h
            },
            Err(ChannelError::Empty) => History { channel: h.channel.after_receive(), ..h },
        },
    }
}

/// The history of a channel of the given capacity after the operations of
/// `ops`, in order.
pub open spec fn play(capacity: nat, ops: Seq<Op>) -> History
    decreases ops.len(),
{
    if ops.len() == 0 {
        begin(capacity)
    } else {
        advance(play(capacity, ops.drop_last()), ops.last())
    }
}

/// What holds of every history.
pub open spec fn history_consistent(h: History) -> bool {
    let unread_from = h.published.len() - h.channel.pending.len();
    &&& h.channel.well_formed()
    &&& h.channel.consumer
    &&& unread_from >= 0
    &&& h.channel.pending == h.published.skip(unread_from)
    &&& h.positions.len() == h.delivered.len()
    &&& forall|i: int|
        0 <= i < h.delivered.len() ==> 0 <= #[trigger] h.positions[i] < unread_from
            && h.delivered[i] == h.published[h.positions[i]]
    &&& forall|i: int, j: int|
        0 <= i < j < h.delivered.len() ==> h.positions[i] < h.positions[j]
    &&& unread_from == h.delivered.len() + h.dropped
    &&& h.reported + h.channel.missed == h.dropped
    &&& (h.dropped == 0 ==> h.delivered == h.published.take(unread_from))
}

proof fn lemma_history(capacity: nat, ops: Seq<Op>)
    requires
        0 < capacity,
        ops.len() <= u64::MAX,
    ensures
        history_consistent(play(capacity, ops)),
        play(capacity, ops).channel.capacity == capacity,
        play(capacity, ops).dropped <= ops.len(),
    decreases ops.len(),
{
    if ops.len() == 0 {
        let h = begin(capacity);
        assert(h.channel.pending =~= h.published.skip(0));
        assert(h.delivered =~= h.published.take(0));
    } else {
        lemma_history(capacity, ops.drop_last());
        let h = play(capacity, ops.drop_last());
        let g = play(capacity, ops);
        let k = h.published.len() - h.channel.pending.len();
        match ops.last() {
            Op::Publish(event) => {
                if h.channel.pending.len() >= h.channel.capacity {
                    assert(g.channel.pending =~= g.published.skip(k + 1));
                } else {
                    assert(g.channel.pending =~= g.published.skip(k));
                    assert(g.published.take(k) =~= h.published.take(k));
                }
                assert(history_consistent(g));
            },
            Op::Receive => {
                match h.channel.receive_result() {
                    Ok(event) => {
                        assert(event == h.published[k]);
                        assert(g.channel.pending =~= g.published.skip(k + 1));
                        assert(h.published.take(k).push(event) =~= g.published.take(k + 1));
                        assert(history_consistent(g));
                    },
                    Err(ChannelError::Lagged(n)) => {
                        assert(history_consistent(g));
                    },
                    Err(ChannelError::Empty) => {
                        assert(history_consistent(g));
                    },
                }
            },
        }
    }
}

/// Events are never reordered or duplicated. Whatever producers and
/// consumer do, in whatever order, the unread events are the most recent
/// ones published, and the events delivered so far are published events
/// taken at strictly rising places. As long as nothing was dropped, the
/// events delivered followed by the unread ones are exactly the events
/// published.
pub proof fn law_order_is_kept(capacity: nat, ops: Seq<Op>)
    requires
        0 < capacity,
        ops.len() <= u64::MAX,
    ensures
        ({
            let h = play(capacity, ops);
            let unread_from = h.published.len() - h.channel.pending.len();
            &&& unread_from >= 0
            &&& h.channel.pending == h.published.skip(unread_from)
            &&& h.positions.len() == h.delivered.len()
            &&& forall|i: int|
                0 <= i < h.delivered.len() ==> 0 <= #[trigger] h.positions[i] < unread_from
                    && h.delivered[i] == h.published[h.positions[i]]
            &&& forall|i: int, j: int|
                0 <= i < j < h.delivered.len() ==> h.positions[i] < h.positions[j]
            &&& (h.dropped == 0 ==> h.delivered + h.channel.pending == h.published)
        }),
{
    lemma_history(capacity, ops);
    let h = play(capacity, ops);
    let unread_from = h.published.len() - h.channel.pending.len();
    if h.dropped == 0 {
        assert(h.published.take(unread_from) + h.published.skip(unread_from) =~= h.published);
    }
}

/// Loss is bounded and accounted for. Whatever producers and consumer
/// do, the channel never holds more unread events than its capacity; every
/// event published was delivered, is unread, or was dropped; and the
/// losses reported to the consumer, with the one still to be reported, add
/// up to the number of events dropped.
pub proof fn law_loss_is_bounded_and_reported(capacity: nat, ops: Seq<Op>)
    requires
        0 < capacity,
        ops.len() <= u64::MAX,
    ensures
        ({
            let h = play(capacity, ops);
            &&& h.channel.pending.len() <= capacity
            &&& h.published.len() == h.delivered.len() + h.channel.pending.len() + h.dropped
            &&& h.reported + h.channel.missed == h.dropped
        }),
{
    lemma_history(capacity, ops);
}

/// The event channel. Any number of producers publish; one consumer receives.
pub struct EventChannel {
    capacity: usize,
    pending: VecDeque<Event>,
    missed: u64,
    consumer: bool,
}

impl View for EventChannel {
    type V = ChannelModel;

    closed spec fn view(&self) -> ChannelModel {
        ChannelModel {
            capacity: self.capacity as nat,
            pending: event_models(self.pending@),
            missed: self.missed as nat,
            consumer: self.consumer,
        }
    }
}

impl EventChannel {
    /// The channel holds no more events than its capacity.
    pub open spec fn well_formed(&self) -> bool {
        self@.well_formed()
    }

    /// A channel that retains up to `capacity` unread events, with its
    /// consumer registered.
    pub fn new(capacity: usize) -> (channel: EventChannel)
        requires
            capacity > 0,
        ensures
            channel.well_formed(),
            channel@ == ChannelModel::fresh(capacity as nat),
    {
        let channel = EventChannel {
            capacity,
            pending: VecDeque::new(),
            missed: 0,
            consumer: true,
        };
        assert(event_models(channel.pending@) =~= Seq::<EventModel>::empty());
        channel
    }

    /// A channel of the default capacity.
    pub fn with_default_capacity() -> (channel: EventChannel)
        ensures
            channel.well_formed(),
            channel@ == ChannelModel::fresh(DEFAULT_CAPACITY as nat),
    {
        EventChannel::new(DEFAULT_CAPACITY)
    }

    /// How many unread events the channel retains at most.
    pub fn capacity(&self) -> (n: usize)
        ensures
            n == self@.capacity,
    {
        self.capacity
    }

    /// How many events wait for the consumer.
    pub fn len(&self) -> (n: usize)
        ensures
            n == self@.pending.len(),
    {
        self.pending.len()
    }

    /// Whether no event waits for the consumer.
    pub fn is_empty(&self) -> (empty: bool)
        ensures
            empty == (self@.pending.len() == 0),
    {
        self.pending.len() == 0
    }

    /// How many events were dropped since the consumer was last told.
    pub fn missed(&self) -> (n: u64)
        ensures
            n == self@.missed,
    {
        self.missed
    }

    /// Whether the consumer is registered.
    pub fn has_consumer(&self) -> (registered: bool)
        ensures
            registered == self@.consumer,
    {
        self.consumer
    }

    /// The consumer leaves: from now on publishing fails.
    pub fn close(&mut self)
        ensures
            final(self)@ == (ChannelModel { consumer: false, ..old(self)@ }),
    {
        self.consumer = false;
    }

    /// Publishes `event` without waiting. Succeeds whenever the consumer is
    /// registered, however full the channel is; a full channel drops its
    /// oldest unread event to make room. Without a consumer the event comes
    /// back and the channel is unchanged.
    pub fn publish(&mut self, event: Event) -> (outcome: Result<(), Event>)
        requires
            old(self).well_formed(),
        ensures
            final(self).well_formed(),
            final(self)@ == old(self)@.publish(event@),
            outcome == (if old(self)@.consumer {
                Ok::<(), Event>(())
            } else {
                Err::<(), Event>(event)
            }),
    {
        if !self.consumer {
            return Err(event);
        }
        if self.pending.len() >= self.capacity {
            let _ = self.pending.pop_front();
            if self.missed < u64::MAX {
                self.missed = self.missed + 1;
            }
            assert(event_models(self.pending@) =~= old(self)@.pending.skip(1));
        }
        let ghost before = self.pending@;
        self.pending.push_back(event);
        assert(event_models(self.pending@) =~= event_models(before).push(event@));
        Ok(())
    }

    /// Takes the next thing the consumer is owed: first the report of a
    /// loss, if events were dropped, then the oldest unread event. `Empty`
    /// where there is neither.
    pub fn receive(&mut self) -> (outcome: Result<Event, ChannelError>)
        requires
            old(self).well_formed(),
        ensures
            final(self).well_formed(),
            outcome_model(outcome) == old(self)@.receive_result(),
            final(self)@ == old(self)@.after_receive(),
    {
        if self.missed > 0 {
            let n = self.missed;
            self.missed = 0;
            return Err(ChannelError::Lagged(n));
        }
        match self.pending.pop_front() {
            Some(event) => {
                assert(event_models(self.pending@) =~= old(self)@.pending.skip(1));
                Ok(event)
            },
            None => Err(ChannelError::Empty),
        }
    }
}

} // verus!
