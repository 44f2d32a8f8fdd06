//! The event bus.
use operune_application::event::{
    publish_outcome, DeliveredEvent, EventError, EventLimits, EventPayload, EventService,
    InboundEvent, QueueSend,
};
use operune_application::policies::InProcessEventPolicy;
use operune_application::values::{EventTopic, InstallationId};

fn installation(seed: u128) -> InstallationId {
    InstallationId { value: seed }
}

fn topic(name: &str) -> EventTopic {
    EventTopic { text: name.to_owned() }
}

fn payload(text: &str) -> EventPayload {
    EventPayload { json: text.to_owned() }
}

/// A host that queues what is published, and hands it on when it is asked to.
struct Host {
    service: EventService,
    policy: InProcessEventPolicy,
    limits: EventLimits,
    inbound: Vec<InboundEvent>,
    delivered: Vec<(InstallationId, DeliveredEvent)>,
}

impl Host {
    fn new(limits: EventLimits) -> Host {
        Host {
            service: EventService::new(limits),
            policy: InProcessEventPolicy::new(),
            limits,
            inbound: Vec::new(),
            delivered: Vec::new(),
        }
    }

    fn publish(
        &mut self,
        publisher: InstallationId,
        name: &str,
        text: &str,
    ) -> Result<(), EventError> {
        let granted = self.policy.publish_granted(publisher, &topic(name));
        let event =
            self.service.publish(publisher, topic(name), payload(text), granted, true)?;
        if self.inbound.len() < self.limits.inbound_queue_capacity {
            self.inbound.push(event);
            publish_outcome(QueueSend::Accepted)
        } else {
            publish_outcome(QueueSend::Full)
        }
    }

    /// Hands on all that was published in one pass; the queues of subscribers
    /// are emptied afterwards.
    fn pump(&mut self, publisher: InstallationId) {
        let mut queued: Vec<(InstallationId, usize)> = Vec::new();
        for event in std::mem::take(&mut self.inbound) {
            let subscribers = self.policy.subscribers(&event.topic);
            let accepts: Vec<bool> = subscribers
                .iter()
                .map(|s| {
                    let used = queued.iter().find(|(q, _)| q == s).map(|(_, n)| *n);
                    used.unwrap_or(0) < self.limits.delivery_queue_capacity
                })
                .collect();
            let out = self.service.fan_out(publisher, &event, &subscribers, &accepts);
            for (subscriber, delivered) in out {
                match queued.iter_mut().find(|(q, _)| *q == subscriber) {
                    Some((_, n)) => *n += 1,
                    None => queued.push((subscriber, 1)),
                }
                self.delivered.push((subscriber, delivered));
            }
        }
    }
}

fn limits() -> EventLimits {
    EventLimits { inbound_queue_capacity: 64, delivery_queue_capacity: 16 }
}

#[test]
fn publish_delivers_to_all_subscribers_with_unique_ids() {
    let mut h = Host::new(limits());
    let publisher = installation(1);
    h.policy.grant_publish(publisher, topic("order.created"));
    h.policy.grant_subscribe(installation(2), topic("order.created"));
    h.policy.grant_subscribe(installation(3), topic("order.created"));
    assert_eq!(h.publish(publisher, "order.created", "{\"order\":1}"), Ok(()));
    h.pump(publisher);
    assert_eq!(h.delivered.len(), 2, "fan-out to every subscriber");
    assert_eq!(h.delivered[0].1.id(), h.delivered[1].1.id());
    assert_eq!(h.delivered[0].1.id(), 1);
    assert_eq!(h.delivered[0].1.topic().as_str(), "order.created");
    assert_eq!(h.delivered[0].1.payload(), &payload("{\"order\":1}"));
    assert_eq!(h.delivered[0].1.dropped(), 0);
    assert_eq!(h.delivered[1].1.dropped(), 0);
    assert_eq!(h.delivered[0].0, installation(2));
    assert_eq!(h.delivered[1].0, installation(3));
}

#[test]
fn publish_without_grant_is_denied() {
    let mut h = Host::new(limits());
    assert_eq!(h.publish(installation(1), "order.created", "{}"), Err(EventError::Denied));
}

#[test]
fn publish_to_reserved_prefix_is_denied() {
    let mut h = Host::new(limits());
    let publisher = installation(1);
    h.policy.grant_publish(publisher, topic("core.system.heartbeat"));
    assert_eq!(h.publish(publisher, "core.system.heartbeat", "{}"), Err(EventError::Denied));
}

#[test]
fn no_subscribers_still_accepts_publish() {
    let mut h = Host::new(limits());
    let publisher = installation(1);
    h.policy.grant_publish(publisher, topic("order.created"));
    assert_eq!(h.publish(publisher, "order.created", "{}"), Ok(()));
    h.pump(publisher);
    assert!(h.delivered.is_empty());
}

#[test]
fn delivery_queue_overflow_counts_dropped() {
    let mut h = Host::new(EventLimits { delivery_queue_capacity: 1, ..limits() });
    let publisher = installation(1);
    h.policy.grant_publish(publisher, topic("order.created"));
    h.policy.grant_subscribe(installation(2), topic("order.created"));
    assert_eq!(h.publish(publisher, "order.created", "{\"n\":1}"), Ok(()));
    assert_eq!(h.publish(publisher, "order.created", "{\"n\":2}"), Ok(()));
    h.pump(publisher);
    assert_eq!(h.service.dropped_total(publisher), 1);
    assert_eq!(h.publish(publisher, "order.created", "{\"n\":3}"), Ok(()));
    h.pump(publisher);
    assert_eq!(h.delivered.len(), 2, "two delivered: first and third event");
    assert_eq!(h.delivered[0].1.dropped(), 0);
    assert_eq!(h.delivered[1].1.dropped(), 1, "dropped count visible on next delivery");
    assert_eq!(h.delivered[1].1.id(), 3);
    assert_eq!(h.service.dropped_total(publisher), 0);
}

#[test]
fn dropped_counts_are_kept_apart() {
    let mut service = EventService::new(limits());
    let publisher = installation(1);
    let event = match service.publish(publisher, topic("t"), payload("{}"), true, true) {
        Ok(event) => event,
        Err(e) => panic!("publish: {}", e.message()),
    };
    let both = vec![installation(2), installation(3)];
    assert!(service.fan_out(publisher, &event, &both, &vec![false, false]).is_empty());
    let out = service.fan_out(publisher, &event, &both, &vec![false, true]);
    assert_eq!(out.len(), 1);
    assert_eq!(out[0].0, installation(3));
    assert_eq!(out[0].1.dropped(), 1);
    assert_eq!(service.dropped_total(publisher), 2);
    service.close(publisher);
    assert_eq!(service.dropped_total(publisher), 0);
    assert!(service.fan_out(installation(9), &event, &both, &vec![true, true]).is_empty());
}

#[test]
fn publish_over_budget_when_inbound_queue_full() {
    let mut h = Host::new(EventLimits { inbound_queue_capacity: 2, ..limits() });
    let publisher = installation(1);
    h.policy.grant_publish(publisher, topic("order.created"));
    assert_eq!(h.publish(publisher, "order.created", "{}"), Ok(()));
    assert_eq!(h.publish(publisher, "order.created", "{}"), Ok(()));
    assert_eq!(h.publish(publisher, "order.created", "{}"), Err(EventError::OverBudget));
    h.pump(publisher);
    assert_eq!(h.publish(publisher, "order.created", "{}"), Ok(()));
}

#[test]
fn stop_prevents_new_publishes_and_drains_in_flight() {
    let mut h = Host::new(limits());
    let publisher = installation(1);
    h.policy.grant_publish(publisher, topic("order.created"));
    h.policy.grant_subscribe(installation(2), topic("order.created"));
    assert_eq!(h.publish(publisher, "order.created", "{\"n\":1}"), Ok(()));
    assert_eq!(h.publish(publisher, "order.created", "{\"n\":2}"), Ok(()));
    assert!(h.service.stop(publisher));
    assert_eq!(h.publish(publisher, "order.created", "{\"n\":3}"), Err(EventError::NotReady));
    h.pump(publisher);
    assert_eq!(h.delivered.len(), 2, "in-flight events complete");
}

#[test]
fn event_stop_is_idempotent_and_noop_for_unused_installations() {
    let mut h = Host::new(limits());
    let unused = installation(1);
    h.policy.grant_publish(unused, topic("order.created"));
    assert!(h.service.stop(unused));
    assert!(h.service.is_stopped(unused));
    assert!(!h.service.stop(unused));
    assert_eq!(h.publish(unused, "order.created", "{}"), Err(EventError::NotReady));
}

#[test]
fn revoked_subscription_stops_delivery() {
    let mut h = Host::new(limits());
    let publisher = installation(1);
    h.policy.grant_publish(publisher, topic("order.created"));
    h.policy.grant_subscribe(installation(2), topic("order.created"));
    assert_eq!(h.publish(publisher, "order.created", "{\"n\":1}"), Ok(()));
    h.pump(publisher);
    assert_eq!(h.delivered.len(), 1);
    h.policy.revoke_subscribe(installation(2), &topic("order.created"));
    assert_eq!(h.publish(publisher, "order.created", "{\"n\":2}"), Ok(()));
    h.pump(publisher);
    assert_eq!(h.delivered.len(), 1, "no delivery after subscription revocation");
}

#[test]
fn publish_outside_runtime_context_is_not_ready() {
    let mut service = EventService::new(limits());
    let publisher = installation(1);
    let error = service.publish(publisher, topic("order.created"), payload("{}"), true, false);
    assert_eq!(error, Err(EventError::NotReady));
    assert_eq!(service.dropped_total(publisher), 0);
}

#[test]
fn delivered_event_accessors() {
    let event = DeliveredEvent::new(7, topic("order.created"), payload("{\"ok\":true}"), 3);
    assert_eq!(event.id(), 7);
    assert_eq!(event.topic().as_str(), "order.created");
    assert_eq!(event.payload(), &payload("{\"ok\":true}"));
    assert_eq!(event.dropped(), 3);
}

#[test]
fn closed_queue_is_not_ready() {
    assert_eq!(publish_outcome(QueueSend::Closed), Err(EventError::NotReady));
    assert_eq!(
        EventLimits::default(),
        EventLimits { inbound_queue_capacity: 64, delivery_queue_capacity: 16 }
    );
}

#[test]
fn event_errors_in_words() {
    assert_eq!(EventError::Denied.message(), "event publish not granted for topic");
    assert_eq!(EventError::InvalidTopic("x").message(), "invalid event topic: x");
    assert_eq!(
        EventError::NotReady.message(),
        "event bus not ready (stopped or no runtime context)"
    );
    assert_eq!(
        EventError::OverBudget.message(),
        "event publish over budget (inbound queue full)"
    );
    assert_eq!(
        EventError::Internal("x").message(),
        "event bus internal invariant violated: x"
    );
}
