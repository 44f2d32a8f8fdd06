//! The event bus: what an installation publishes goes through a bounded queue,
//! and from there to the bounded queue of every subscriber.
//!
//! A publisher whose queue is full is told so at once. A subscriber whose queue
//! is full misses the event; the number of events it missed comes with the next
//! one that reaches it.
use vstd::prelude::*;

use crate::scheduler;
use crate::table::Table;
use crate::timers;
use crate::values::{EventTopic, InstallationId};

verus! {

/// What the host allows its event bus.
#[derive(Debug, Clone, Copy, PartialEq, Eq, Structural)]
pub struct EventLimits {
    pub inbound_queue_capacity: usize,
    pub delivery_queue_capacity: usize,
}

impl Default for EventLimits {
    fn default() -> (r: EventLimits)
        ensures
            r == (EventLimits { inbound_queue_capacity: 64, delivery_queue_capacity: 16 }),
    {
        EventLimits { inbound_queue_capacity: 64, delivery_queue_capacity: 16 }
    }
}

/// Why the event bus turns a request away.
#[derive(Debug, Clone, Copy, PartialEq, Eq)]
pub enum EventError {
    Denied,
    InvalidTopic(&'static str),
    NotReady,
    OverBudget,
    Internal(&'static str),
}

impl EventError {
    pub open spec fn text(self) -> Seq<char> {
        match self {
            EventError::Denied => "event publish not granted for topic"@,
            EventError::InvalidTopic(reason) => "invalid event topic: "@ + reason@,
            EventError::NotReady => "event bus not ready (stopped or no runtime context)"@,
            EventError::OverBudget => "event publish over budget (inbound queue full)"@,
            EventError::Internal(reason) => "event bus internal invariant violated: "@ + reason@,
        }
    }

    /// The error in words.
    pub fn message(&self) -> (r: String)
        ensures
            r@ == self.text(),
    {
        match self {
            EventError::Denied => String::from_str("event publish not granted for topic"),
            EventError::InvalidTopic(reason) => crate::text::joined("invalid event topic: ", reason),
            EventError::NotReady => String::from_str(
                "event bus not ready (stopped or no runtime context)",
            ),
            EventError::OverBudget => String::from_str("event publish over budget (inbound queue full)"),
            EventError::Internal(reason) => crate::text::joined(
                "event bus internal invariant violated: ",
                reason,
            ),
        }
    }
}

/// What an event carries: a JSON text.
#[derive(Debug, PartialEq, Eq)]
pub struct EventPayload {
    pub json: String,
}

impl Clone for EventPayload {
    fn clone(&self) -> (r: Self)
        ensures
            r == *self,
    {
        EventPayload { json: self.json.clone() }
    }
}

/// An event that was accepted and is yet to be handed to its subscribers.
#[derive(Debug, PartialEq, Eq)]
pub struct InboundEvent {
    pub event_id: u64,
    pub topic: EventTopic,
    pub payload: EventPayload,
}

/// An event as it reaches a subscriber.
#[derive(Debug, PartialEq, Eq)]
pub struct DeliveredEvent {
    pub id: u64,
    pub topic: EventTopic,
    pub payload: EventPayload,
    /// How many events the subscriber has missed since the last that reached it.
    pub dropped: u64,
}

impl DeliveredEvent {
    pub fn new(id: u64, topic: EventTopic, payload: EventPayload, dropped: u64) -> (r: DeliveredEvent)
        ensures
            r == (DeliveredEvent { id, topic, payload, dropped }),
    {
        DeliveredEvent { id, topic, payload, dropped }
    }

    pub fn id(&self) -> (r: u64)
        ensures
            r == self.id,
    {
        self.id
    }

    pub fn topic(&self) -> (r: &EventTopic)
        ensures
            *r == self.topic,
    {
        &self.topic
    }

    pub fn payload(&self) -> (r: &EventPayload)
        ensures
            *r == self.payload,
    {
        &self.payload
    }

    pub fn dropped(&self) -> (r: u64)
        ensures
            r == self.dropped,
    {
        self.dropped
    }
}

/// How a bounded queue took what was put to it.
#[derive(Debug, Clone, Copy, PartialEq, Eq, Structural)]
pub enum QueueSend {
    Accepted,
    Full,
    Closed,
}

/// What a publisher is told, from how its queue took the event.
pub fn publish_outcome(sent: QueueSend) -> (r: Result<(), EventError>)
    ensures
        r == match sent {
            QueueSend::Accepted => Ok::<(), EventError>(()),
            QueueSend::Full => Err(EventError::OverBudget),
            QueueSend::Closed => Err(EventError::NotReady),
        },
{
    match sent {
        QueueSend::Accepted => Ok(()),
        QueueSend::Full => Err(EventError::OverBudget),
        QueueSend::Closed => Err(EventError::NotReady),
    }
}

/// How many events a subscriber has missed since the last that reached it.
pub open spec fn missed(dropped: Map<u128, u64>, subscriber: InstallationId) -> u64 {
    if dropped.dom().contains(subscriber.value) {
        dropped[subscriber.value]
    } else {
        0
    }
}

/// The counts after an event was put to a subscriber's queue.
pub open spec fn settled_one(
    dropped: Map<u128, u64>,
    subscriber: InstallationId,
    accepted: bool,
) -> Map<u128, u64> {
    dropped.insert(
        subscriber.value,
        if accepted {
            0
        } else {
            timers::capped_sum(missed(dropped, subscriber) as int, 1) as u64
        },
    )
}

/// The counts after an event was put to the queues of several subscribers.
pub open spec fn settled(
    dropped: Map<u128, u64>,
    subscribers: Seq<InstallationId>,
    accepts: Seq<bool>,
) -> Map<u128, u64>
    decreases subscribers.len(),
{
    if subscribers.len() == 0 {
        dropped
    } else {
        settled_one(
            settled(dropped, subscribers.drop_last(), accepts.drop_last()),
            subscribers.last(),
            accepts.last(),
        )
    }
}

/// What goes into the queues of several subscribers.
pub open spec fn offers(
    dropped: Map<u128, u64>,
    subscribers: Seq<InstallationId>,
    accepts: Seq<bool>,
    event: InboundEvent,
) -> Seq<(InstallationId, DeliveredEvent)>
    decreases subscribers.len(),
{
    if subscribers.len() == 0 {
        Seq::empty()
    } else {
        let sooner = offers(dropped, subscribers.drop_last(), accepts.drop_last(), event);
        if accepts.last() {
            sooner.push(
                (
                    subscribers.last(),
                    DeliveredEvent {
                        id: event.event_id,
                        topic: event.topic,
                        payload: event.payload,
                        dropped: missed(
                            settled(dropped, subscribers.drop_last(), accepts.drop_last()),
                            subscribers.last(),
                        ),
                    },
                ),
            )
        } else {
            sooner
        }
    }
}

/// Puts an event to the queues of its subscribers.
fn fan_out_to(
    dropped: &mut Table<u64>,
    event: &InboundEvent,
    subscribers: &Vec<InstallationId>,
    accepts: &Vec<bool>,
) -> (out: Vec<(InstallationId, DeliveredEvent)>)
    requires
        old(dropped).wf(),
        accepts@.len() == subscribers@.len(),
    ensures
        final(dropped).wf(),
        final(dropped)@ == settled(old(dropped)@, subscribers@, accepts@),
        out@ == offers(old(dropped)@, subscribers@, accepts@, *event),
{
    let ghost before = dropped@;
    let mut out: Vec<(InstallationId, DeliveredEvent)> = Vec::new();
    let mut i: usize = 0;
    while i < subscribers.len()
        invariant
            i <= subscribers@.len(),
            accepts@.len() == subscribers@.len(),
            dropped.wf(),
            dropped@ == settled(before, subscribers@.take(i as int), accepts@.take(i as int)),
            out@ == offers(before, subscribers@.take(i as int), accepts@.take(i as int), *event),
        decreases subscribers@.len() - i,
    {
        proof {
            assert(subscribers@.take(i + 1).drop_last() =~= subscribers@.take(i as int));
            assert(accepts@.take(i + 1).drop_last() =~= accepts@.take(i as int));
        }
        let subscriber: InstallationId = subscribers[i];
        let count: u64 = match dropped.get(subscriber.value) {
            Some(count) => *count,
            None => 0,
        };
        if accepts[i] {
            out.push(
                (
                    subscriber,
                    DeliveredEvent::new(event.event_id, event.topic.clone(), event.payload.clone(), count),
                ),
            );
            dropped.insert(subscriber.value, 0);
        } else {
            dropped.insert(subscriber.value, count.saturating_add(1));
        }
        i = i + 1;
    }
    proof {
        assert(subscribers@.take(i as int) =~= subscribers@);
        assert(accepts@.take(i as int) =~= accepts@);
    }
    out
}

/// The sum of the counts under some keys.
pub open spec fn sum_of(keys: Seq<u128>, counts: Map<u128, u64>) -> int
    decreases keys.len(),
{
    if keys.len() == 0 {
        0
    } else {
        sum_of(keys.drop_last(), counts) + counts[keys.last()]
    }
}

proof fn lemma_sum_grows(keys: Seq<u128>, counts: Map<u128, u64>, n: int)
    requires
        0 <= n <= keys.len(),
    ensures
        0 <= sum_of(keys.take(n), counts) <= sum_of(keys, counts),
    decreases keys.len(),
{
    if n < keys.len() {
        lemma_sum_grows(keys.drop_last(), counts, n);
        assert(keys.drop_last().take(n) =~= keys.take(n));
    } else {
        assert(keys.take(n) =~= keys);
        if n > 0 {
            lemma_sum_grows(keys.drop_last(), counts, n - 1);
        }
    }
}

/// An installation's part of the event bus.
#[derive(Debug)]
pub struct InstallEvents {
    /// Nothing more is accepted from a stopped installation.
    pub stopped: bool,
    /// How many events each subscriber has missed since the last that reached
    /// it.
    pub dropped: Table<u64>,
}

/// The event bus of a host.
#[derive(Debug)]
pub struct EventService {
    installs: Table<InstallEvents>,
    limits: EventLimits,
    next_event_id: u64,
}

impl EventService {
    pub closed spec fn limits(&self) -> EventLimits {
        self.limits
    }

    /// The number that the next event gets.
    pub closed spec fn next_id(&self) -> int {
        self.next_event_id as int
    }

    /// The installation has used the bus.
    pub closed spec fn known(&self, installation: InstallationId) -> bool {
        self.installs@.dom().contains(installation.value)
    }

    /// The installation's part of the bus was stopped.
    pub closed spec fn stopped(&self, installation: InstallationId) -> bool {
        self.known(installation) && self.installs@[installation.value].stopped
    }

    /// How many events each subscriber of the installation has missed since the
    /// last that reached it.
    pub closed spec fn dropped(&self, installation: InstallationId) -> Map<u128, u64> {
        if self.known(installation) {
            self.installs@[installation.value].dropped@
        } else {
            Map::empty()
        }
    }

    pub closed spec fn wf(&self) -> bool {
        &&& self.installs.wf()
        &&& forall|key: u128| #[trigger]
            self.installs@.dom().contains(key) ==> self.installs@[key].dropped.wf()
    }

    /// What is known of all installations but one stays as it was.
    pub open spec fn same_but_for(&self, other: &EventService, installation: InstallationId) -> bool {
        &&& forall|x: InstallationId|
            x != installation ==> #[trigger] self.known(x) == other.known(x)
        &&& forall|x: InstallationId|
            x != installation ==> #[trigger] self.stopped(x) == other.stopped(x)
        &&& forall|x: InstallationId|
            x != installation ==> #[trigger] self.dropped(x) == other.dropped(x)
    }

    /// An unused event bus.
    pub fn new(limits: EventLimits) -> (r: EventService)
        ensures
            r.wf(),
            r.limits() == limits,
            r.next_id() == 1,
            forall|x: InstallationId| !#[trigger] r.known(x),
            forall|x: InstallationId| !#[trigger] r.stopped(x),
            forall|x: InstallationId| #[trigger] r.dropped(x) == Map::<u128, u64>::empty(),
    {
        EventService { installs: Table::new(), limits, next_event_id: 1 }
    }

    /// What a publisher is told before its event is put to the queue.
    pub open spec fn publish_fault(&self, installation: InstallationId, granted: bool, in_runtime: bool) -> Option<
        EventError,
    > {
        if !granted {
            Some(EventError::Denied)
        } else if !in_runtime || self.stopped(installation) {
            Some(EventError::NotReady)
        } else {
            None
        }
    }

    /// Takes an event from a publisher. `granted` tells whether the policy lets
    /// it publish on the topic, and `in_runtime` whether the bus can be driven
    /// here. What comes back is put to the installation's queue, and
    /// [`publish_outcome`] says what the publisher is told.
    ///
    /// A number that was taken is not used again, even where the event is then
    /// turned away, until all numbers were taken; then they begin anew.
    pub fn publish(
        &mut self,
        installation: InstallationId,
        topic: EventTopic,
        payload: EventPayload,
        granted: bool,
        in_runtime: bool,
    ) -> (r: Result<InboundEvent, EventError>)
        requires
            old(self).wf(),
        ensures
            final(self).wf(),
            final(self).limits() == old(self).limits(),
            match r {
                Ok(event) => {
                    &&& old(self).publish_fault(installation, granted, in_runtime) is None
                    &&& event == (InboundEvent { event_id: old(self).next_id() as u64, topic, payload })
                    &&& final(self).known(installation)
                },
                Err(e) => {
                    &&& old(self).publish_fault(installation, granted, in_runtime) == Some(e)
                    &&& final(self).known(installation) == old(self).known(installation)
                },
            },
            final(self).next_id() == if !granted {
                old(self).next_id()
            } else if old(self).next_id() == u64::MAX {
                0
            } else {
                old(self).next_id() + 1
            },
            final(self).stopped(installation) == old(self).stopped(installation),
            final(self).dropped(installation) == old(self).dropped(installation),
            final(self).same_but_for(old(self), installation),
    {
        if !granted {
            return Err(EventError::Denied);
        }
        let event_id: u64 = self.next_event_id;
        self.next_event_id = event_id.wrapping_add(1);
        if !in_runtime {
            return Err(EventError::NotReady);
        }
        match self.installs.get(installation.value) {
            Some(install) => {
                if install.stopped {
                    return Err(EventError::NotReady);
                }
            },
            None => {
                let dropped: Table<u64> = Table::new();
                self.installs.insert(installation.value, InstallEvents { stopped: false, dropped });
                proof {
                    assert(self.dropped(installation) =~= old(self).dropped(installation));
                    assert forall|x: InstallationId| x != installation implies #[trigger] self.known(x)
                        == old(self).known(x) && self.stopped(x) == old(self).stopped(x)
                        && self.dropped(x) == old(self).dropped(x) by {
                        assert(x.value != installation.value);
                    }
                }
            },
        }
        Ok(InboundEvent { event_id, topic, payload })
    }

    /// Stops an installation's part of the bus for good. Tells whether it was
    /// running. What was accepted before is still handed on.
    pub fn stop(&mut self, installation: InstallationId) -> (r: bool)
        requires
            old(self).wf(),
        ensures
            final(self).wf(),
            final(self).limits() == old(self).limits(),
            final(self).next_id() == old(self).next_id(),
            r == !old(self).stopped(installation),
            final(self).known(installation),
            final(self).stopped(installation),
            final(self).dropped(installation) == old(self).dropped(installation),
            final(self).same_but_for(old(self), installation),
    {
        let mut install: InstallEvents = match self.installs.remove(installation.value) {
            Some(install) => install,
            None => InstallEvents { stopped: false, dropped: Table::new() },
        };
        let was_running: bool = !install.stopped;
        install.stopped = true;
        self.installs.insert(installation.value, install);
        proof {
            assert(self.dropped(installation) =~= old(self).dropped(installation));
            assert forall|x: InstallationId| x != installation implies #[trigger] self.known(x) == old(
                self,
            ).known(x) && self.stopped(x) == old(self).stopped(x) && self.dropped(x) == old(
                self,
            ).dropped(x) by {
                assert(x.value != installation.value);
            }
        }
        was_running
    }

    /// The installation's part of the bus was stopped.
    pub fn is_stopped(&self, installation: InstallationId) -> (r: bool)
        requires
            self.wf(),
        ensures
            r == self.stopped(installation),
    {
        match self.installs.get(installation.value) {
            Some(install) => install.stopped,
            None => false,
        }
    }

    /// How many events the installation's subscribers have missed since the last
    /// that reached each, as far as the number fits.
    pub fn dropped_total(&self, installation: InstallationId) -> (r: u64)
        requires
            self.wf(),
        ensures
            exists|keys: Seq<u128>|
                {
                    &&& scheduler::ascends(keys)
                    &&& keys.to_set() == self.dropped(installation).dom()
                    &&& r == timers::capped_sum(0, #[trigger] sum_of(keys, self.dropped(installation)))
                },
    {
        match self.installs.get(installation.value) {
            None => {
                proof {
                    let keys = Seq::<u128>::empty();
                    assert(keys.to_set() =~= self.dropped(installation).dom());
                    assert(sum_of(keys, self.dropped(installation)) == 0);
                }
                0
            },
            Some(install) => {
                let ghost keys = install.dropped.keys();
                let n: usize = install.dropped.len();
                let mut i: usize = 0;
                let mut sum: u64 = 0;
                proof {
                    install.dropped.lemma_keys();
                }
                while i < n
                    invariant
                        install.dropped.wf(),
                        keys == install.dropped.keys(),
                        n == keys.len(),
                        i <= n,
                        sum == timers::capped_sum(0, sum_of(keys.take(i as int), install.dropped@)),
                    decreases n - i,
                {
                    proof {
                        assert(keys.take(i + 1).drop_last() =~= keys.take(i as int));
                    }
                    let (_, count) = install.dropped.entry(i);
                    sum = sum.saturating_add(*count);
                    i = i + 1;
                }
                proof {
                    assert(keys.take(n as int) =~= keys);
                    lemma_sum_grows(keys, install.dropped@, 0);
                    assert(self.dropped(installation) == install.dropped@);
                    assert(sum_of(keys, self.dropped(installation)) >= 0);
                    assert(scheduler::ascends(keys));
                }
                sum
            },
        }
    }

    /// Hands an event of an installation to its subscribers. `accepts` tells of
    /// each subscriber whether its queue takes one more. What comes back goes
    /// into the queues, in order.
    pub fn fan_out(
        &mut self,
        installation: InstallationId,
        event: &InboundEvent,
        subscribers: &Vec<InstallationId>,
        accepts: &Vec<bool>,
    ) -> (out: Vec<(InstallationId, DeliveredEvent)>)
        requires
            old(self).wf(),
            accepts@.len() == subscribers@.len(),
        ensures
            final(self).wf(),
            final(self).limits() == old(self).limits(),
            final(self).next_id() == old(self).next_id(),
            final(self).known(installation) == old(self).known(installation),
            final(self).stopped(installation) == old(self).stopped(installation),
            final(self).same_but_for(old(self), installation),
            if old(self).known(installation) {
                &&& final(self).dropped(installation) == settled(
                    old(self).dropped(installation),
                    subscribers@,
                    accepts@,
                )
                &&& out@ == offers(old(self).dropped(installation), subscribers@, accepts@, *event)
            } else {
                &&& final(self).dropped(installation) == old(self).dropped(installation)
                &&& out@.len() == 0
            },
    {
        match self.installs.remove(installation.value) {
            None => {
                assert(self.installs@ =~= old(self).installs@);
                Vec::new()
            },
            Some(mut install) => {
                let out = fan_out_to(&mut install.dropped, event, subscribers, accepts);
                self.installs.insert(installation.value, install);
                proof {
                    assert forall|x: InstallationId| x != installation implies #[trigger] self.known(x)
                        == old(self).known(x) && self.stopped(x) == old(self).stopped(x)
                        && self.dropped(x) == old(self).dropped(x) by {
                        assert(x.value != installation.value);
                    }
                }
                out
            },
        }
    }

    /// Closes the queues of an installation's subscribers, once all that it had
    /// published before it was stopped has been handed on.
    pub fn close(&mut self, installation: InstallationId)
        requires
            old(self).wf(),
        ensures
            final(self).wf(),
            final(self).limits() == old(self).limits(),
            final(self).next_id() == old(self).next_id(),
            final(self).known(installation) == old(self).known(installation),
            final(self).stopped(installation) == old(self).stopped(installation),
            final(self).dropped(installation) == Map::<u128, u64>::empty(),
            final(self).same_but_for(old(self), installation),
    {
        match self.installs.remove(installation.value) {
            None => {
                assert(self.installs@ =~= old(self).installs@);
            },
            Some(mut install) => {
                install.dropped = Table::new();
                self.installs.insert(installation.value, install);
                proof {
                    assert forall|x: InstallationId| x != installation implies #[trigger] self.known(x)
                        == old(self).known(x) && self.stopped(x) == old(self).stopped(x)
                        && self.dropped(x) == old(self).dropped(x) by {
                        assert(x.value != installation.value);
                    }
                }
            },
        }
    }
}

/// A subscriber learns of every event it missed: after `refused` events that
/// found its queue full, the next that is accepted carries that many more than
/// were missed before, up to the cap of the count; and the count starts over.
pub proof fn law_missed_events_are_reported(
    dropped: Map<u128, u64>,
    subscriber: InstallationId,
    refused: nat,
    event: InboundEvent,
)
    ensures
        ({
            let subscribers = Seq::new(refused + 1, |i: int| subscriber);
            let accepts = Seq::new(refused + 1, |i: int| i == refused);
            let out = offers(dropped, subscribers, accepts, event);
            &&& out.len() == 1
            &&& out[0].0 == subscriber
            &&& out[0].1.dropped == timers::capped_sum(missed(dropped, subscriber) as int, refused as int)
            &&& missed(settled(dropped, subscribers, accepts), subscriber) == 0
        }),
{
    let subscribers = Seq::new(refused + 1, |i: int| subscriber);
    let accepts = Seq::new(refused + 1, |i: int| i == refused);
    lemma_refused(dropped, subscriber, refused, event);
    assert(subscribers.drop_last() =~= Seq::new(refused, |i: int| subscriber));
    assert(accepts.drop_last() =~= Seq::new(refused, |i: int| false));
}

proof fn lemma_refused(
    dropped: Map<u128, u64>,
    subscriber: InstallationId,
    refused: nat,
    event: InboundEvent,
)
    ensures
        ({
            let subscribers = Seq::new(refused, |i: int| subscriber);
            let accepts = Seq::new(refused, |i: int| false);
            &&& offers(dropped, subscribers, accepts, event).len() == 0
            &&& missed(settled(dropped, subscribers, accepts), subscriber) == timers::capped_sum(
                missed(dropped, subscriber) as int,
                refused as int,
            )
        }),
    decreases refused,
{
    if refused > 0 {
        let fewer = (refused - 1) as nat;
        lemma_refused(dropped, subscriber, fewer, event);
        let subscribers = Seq::new(refused, |i: int| subscriber);
        let accepts = Seq::new(refused, |i: int| false);
        assert(subscribers.drop_last() =~= Seq::new(fewer, |i: int| subscriber));
        assert(accepts.drop_last() =~= Seq::new(fewer, |i: int| false));
    }
}

/// Subscribers do not disturb one another: what one is handed, and what it
/// misses, does not change what another has missed.
pub proof fn law_subscribers_are_independent(
    dropped: Map<u128, u64>,
    subscribers: Seq<InstallationId>,
    accepts: Seq<bool>,
    other: InstallationId,
)
    requires
        accepts.len() == subscribers.len(),
        !subscribers.contains(other),
    ensures
        missed(settled(dropped, subscribers, accepts), other) == missed(dropped, other),
    decreases subscribers.len(),
{
    if subscribers.len() > 0 {
        assert(subscribers.contains(subscribers[subscribers.len() - 1]));
        assert forall|i: int| 0 <= i < subscribers.len() - 1 implies subscribers.drop_last()[i] != other by {
            assert(subscribers.contains(subscribers[i]));
        }
        law_subscribers_are_independent(dropped, subscribers.drop_last(), accepts.drop_last(), other);
        assert(subscribers.last().value != other.value);
    }
}

/// How many places of a row are set.
pub open spec fn places_set(places: Seq<bool>) -> nat {
    places.filter(|p: bool| p).len()
}

proof fn lemma_places_set(places: Seq<bool>)
    ensures
        places.len() == 0 ==> places_set(places) == 0,
        places.len() > 0 ==> places_set(places) == places_set(places.drop_last()) + if places.last() {
            1int
        } else {
            0
        },
{
    reveal(Seq::filter);
}

/// Law: fan-out is complete. There are as many deliveries as there are subscribers
/// whose queue takes one more; each such subscriber gets the event, with its number,
/// topic and payload; and the deliveries stand in the order of the subscribers.
pub proof fn law_every_accepting_subscriber_gets_the_event(
    dropped: Map<u128, u64>,
    subscribers: Seq<InstallationId>,
    accepts: Seq<bool>,
    event: InboundEvent,
)
    requires
        accepts.len() == subscribers.len(),
    ensures
        offers(dropped, subscribers, accepts, event).len() == places_set(accepts),
        forall|i: int|
            0 <= i < subscribers.len() && #[trigger] accepts[i] ==> {
                let place = places_set(accepts.take(i)) as int;
                let out = offers(dropped, subscribers, accepts, event);
                &&& 0 <= place < out.len()
                &&& out[place].0 == subscribers[i]
                &&& out[place].1.id == event.event_id
                &&& out[place].1.topic == event.topic
                &&& out[place].1.payload == event.payload
            },
    decreases subscribers.len(),
{
    lemma_places_set(accepts);
    if subscribers.len() > 0 {
        let fewer = subscribers.drop_last();
        let taken = accepts.drop_last();
        let last = subscribers.len() - 1;
        law_every_accepting_subscriber_gets_the_event(dropped, fewer, taken, event);
        let sooner = offers(dropped, fewer, taken, event);
        let out = offers(dropped, subscribers, accepts, event);
        assert(accepts.take(last) =~= taken);
        assert forall|i: int| 0 <= i < subscribers.len() && #[trigger] accepts[i] implies {
            let place = places_set(accepts.take(i)) as int;
            &&& 0 <= place < out.len()
            &&& out[place].0 == subscribers[i]
            &&& out[place].1.id == event.event_id
            &&& out[place].1.topic == event.topic
            &&& out[place].1.payload == event.payload
        } by {
            if i < last {
                assert(taken[i]);
                assert(taken.take(i) =~= accepts.take(i));
                assert(out[places_set(accepts.take(i)) as int] == sooner[places_set(accepts.take(i)) as int]);
            }
        }
    }
}

/// Law: nobody gets an event but a subscriber whose queue takes one more.
pub proof fn law_only_accepting_subscribers_get_the_event(
    dropped: Map<u128, u64>,
    subscribers: Seq<InstallationId>,
    accepts: Seq<bool>,
    event: InboundEvent,
    j: int,
)
    requires
        accepts.len() == subscribers.len(),
        0 <= j < offers(dropped, subscribers, accepts, event).len(),
    ensures
        exists|i: int|
            0 <= i < subscribers.len() && #[trigger] accepts[i] && subscribers[i] == offers(
                dropped,
                subscribers,
                accepts,
                event,
            )[j].0,
    decreases subscribers.len(),
{
    if subscribers.len() > 0 {
        let fewer = subscribers.drop_last();
        let taken = accepts.drop_last();
        let sooner = offers(dropped, fewer, taken, event);
        let out = offers(dropped, subscribers, accepts, event);
        if j < sooner.len() {
            law_only_accepting_subscribers_get_the_event(dropped, fewer, taken, event, j);
            let i = choose|i: int|
                0 <= i < fewer.len() && #[trigger] taken[i] && fewer[i] == sooner[j].0;
            assert(accepts[i] && subscribers[i] == out[j].0);
        } else {
            assert(accepts[subscribers.len() - 1]);
        }
    }
}

/// The count that stands under a key; none is nothing.
proof fn lemma_missed(dropped: Map<u128, u64>, subscriber: InstallationId)
    ensures
        missed(dropped, subscriber) == if dropped.dom().contains(subscriber.value) {
            dropped[subscriber.value]
        } else {
            0
        },
{
}

/// Law: every subscriber either gets the event or has one more counted as missed.
/// Where no subscriber stands twice, one that gets the event is told how many it has
/// missed, and its count starts over; the count of one that does not goes up by one;
/// and the counts of all others stay.
pub proof fn law_each_event_is_delivered_or_counted(
    dropped: Map<u128, u64>,
    subscribers: Seq<InstallationId>,
    accepts: Seq<bool>,
    event: InboundEvent,
    i: int,
)
    requires
        accepts.len() == subscribers.len(),
        subscribers.no_duplicates(),
        0 <= i < subscribers.len(),
    ensures
        ({
            let key = subscribers[i].value;
            let before = if dropped.dom().contains(key) {
                dropped[key] as int
            } else {
                0
            };
            let after = settled(dropped, subscribers, accepts);
            let out = offers(dropped, subscribers, accepts, event);
            let place = places_set(accepts.take(i)) as int;
            &&& after.dom().contains(key)
            &&& if accepts[i] {
                &&& after[key] == 0
                &&& 0 <= place < out.len()
                &&& out[place].0 == subscribers[i]
                &&& out[place].1.dropped == before
            } else {
                &&& before < u64::MAX ==> after[key] == before + 1
                &&& before == u64::MAX ==> after[key] == before
                &&& forall|j: int| 0 <= j < out.len() ==> (#[trigger] out[j]).0 != subscribers[i]
            }
        }),
    decreases subscribers.len(),
{
    let fewer = subscribers.drop_last();
    let taken = accepts.drop_last();
    let last = subscribers.len() - 1;
    let out = offers(dropped, subscribers, accepts, event);
    lemma_places_set(accepts);
    law_every_accepting_subscriber_gets_the_event(dropped, subscribers, accepts, event);
    law_every_accepting_subscriber_gets_the_event(dropped, fewer, taken, event);
    if i < last {
        assert(fewer.no_duplicates());
        assert(fewer[i] == subscribers[i] && taken[i] == accepts[i]);
        assert(taken.take(i) =~= accepts.take(i));
        law_each_event_is_delivered_or_counted(dropped, fewer, taken, event, i);
        assert(subscribers[last] != subscribers[i]);
        assert(subscribers[last].value != subscribers[i].value);
        let sooner = offers(dropped, fewer, taken, event);
        if accepts[i] {
            assert(out[places_set(accepts.take(i)) as int] == sooner[places_set(accepts.take(i)) as int]);
        } else {
            assert forall|j: int| 0 <= j < out.len() implies (#[trigger] out[j]).0 != subscribers[i] by {
                if j < sooner.len() {
                    assert(out[j] == sooner[j]);
                }
            }
        }
    } else {
        assert(!fewer.contains(subscribers[last])) by {
            if fewer.contains(subscribers[last]) {
                let j = choose|j: int| 0 <= j < fewer.len() && fewer[j] == subscribers[last];
                assert(subscribers[j] == subscribers[last]);
            }
        }
        law_subscribers_are_independent(dropped, fewer, taken, subscribers[last]);
        lemma_missed(dropped, subscribers[last]);
        assert(accepts.take(last) =~= taken);
        if !accepts[last] {
            assert forall|j: int| 0 <= j < out.len() implies (#[trigger] out[j]).0 != subscribers[i] by {
                law_only_accepting_subscribers_get_the_event(dropped, subscribers, accepts, event, j);
                let n = choose|n: int|
                    0 <= n < subscribers.len() && #[trigger] accepts[n] && subscribers[n] == out[j].0;
                assert(subscribers[n] != subscribers[last]);
            }
        }
    }
}

/// Law: the counts of those who do not subscribe stay as they are.
pub proof fn law_other_counts_stay(
    dropped: Map<u128, u64>,
    subscribers: Seq<InstallationId>,
    accepts: Seq<bool>,
    key: u128,
)
    requires
        accepts.len() == subscribers.len(),
        forall|i: int| 0 <= i < subscribers.len() ==> (#[trigger] subscribers[i]).value != key,
    ensures
        settled(dropped, subscribers, accepts).dom().contains(key) == dropped.dom().contains(key),
        dropped.dom().contains(key) ==> settled(dropped, subscribers, accepts)[key] == dropped[key],
    decreases subscribers.len(),
{
    if subscribers.len() > 0 {
        let fewer = subscribers.drop_last();
        assert forall|i: int| 0 <= i < fewer.len() implies (#[trigger] fewer[i]).value != key by {
            assert(subscribers[i].value != key);
        }
        law_other_counts_stay(dropped, fewer, accepts.drop_last(), key);
        assert(subscribers[subscribers.len() - 1].value != key);
    }
}

/// Law: one more event missed by one subscriber is one more in the total.
pub proof fn law_total_counts_every_missed_event(keys: Seq<u128>, counts: Map<u128, u64>, key: u128, more: u64)
    requires
        keys.no_duplicates(),
        keys.contains(key),
    ensures
        sum_of(keys, counts.insert(key, more)) - more == sum_of(keys, counts) - counts[key],
        sum_of(keys, Map::new(|k: u128| true, |k: u128| 0u64)) == 0,
    decreases keys.len(),
{
    let zero = Map::new(|k: u128| true, |k: u128| 0u64);
    let fewer = keys.drop_last();
    let changed = counts.insert(key, more);
    lemma_zero_sum(keys);
    if keys.last() == key {
        assert(!fewer.contains(key)) by {
            if fewer.contains(key) {
                let j = choose|j: int| 0 <= j < fewer.len() && fewer[j] == key;
                assert(keys[j] == keys[keys.len() - 1]);
            }
        }
        lemma_sum_without(fewer, counts, key, more);
    } else {
        let j = choose|j: int| 0 <= j < keys.len() && keys[j] == key;
        assert(fewer[j] == key);
        law_total_counts_every_missed_event(fewer, counts, key, more);
    }
}

proof fn lemma_zero_sum(keys: Seq<u128>)
    ensures
        sum_of(keys, Map::new(|k: u128| true, |k: u128| 0u64)) == 0,
    decreases keys.len(),
{
    if keys.len() > 0 {
        lemma_zero_sum(keys.drop_last());
    }
}

proof fn lemma_sum_without(keys: Seq<u128>, counts: Map<u128, u64>, key: u128, more: u64)
    requires
        !keys.contains(key),
    ensures
        sum_of(keys, counts.insert(key, more)) == sum_of(keys, counts),
    decreases keys.len(),
{
    if keys.len() > 0 {
        assert(keys.contains(keys[keys.len() - 1]));
        assert forall|j: int| 0 <= j < keys.drop_last().len() implies keys.drop_last()[j] != key by {
            assert(keys.contains(keys[j]));
        }
        lemma_sum_without(keys.drop_last(), counts, key, more);
    }
}

/// Law: a publisher is refused only for a cause: the policy does not let it publish,
/// or the bus cannot be driven here or was stopped; the policy comes first.
pub proof fn law_publishing_is_refused_only_for_cause(
    bus: EventService,
    installation: InstallationId,
    granted: bool,
    in_runtime: bool,
)
    ensures
        bus.publish_fault(installation, granted, in_runtime) is None <==> granted && in_runtime
            && !bus.stopped(installation),
        bus.publish_fault(installation, granted, in_runtime) == Some(EventError::Denied) <==> !granted,
        bus.publish_fault(installation, granted, in_runtime) == Some(EventError::NotReady) <==> granted && (
        !in_runtime || bus.stopped(installation)),
{
}

/// Law: the event bus tells each error in its own words, with the reason behind them
/// where there is one.
pub proof fn law_event_errors_are_worded(error: EventError)
    ensures
        error is Denied ==> error.text() == "event publish not granted for topic"@,
        error matches EventError::InvalidTopic(reason) ==> error.text() == "invalid event topic: "@ + reason@,
        error is NotReady ==> error.text() == "event bus not ready (stopped or no runtime context)"@,
        error is OverBudget ==> error.text() == "event publish over budget (inbound queue full)"@,
        error matches EventError::Internal(reason) ==> error.text() == "event bus internal invariant violated: "@
            + reason@,
{
}

} // verus!
