//! Timers and the scheduler.
use operune_application::clock::{ClockError, SystemClock};
use operune_application::policies::InProcessSchedulerGrant;
use operune_application::ports::GrantError;
use operune_application::scheduler::{
    validate_trigger, DriverStep, SchedulerError, SchedulerLimits, SchedulerService,
};
use operune_application::timers::{
    due_grid_points, duration_between, grid_offset, ScheduleTrigger, TaskEntry, TaskState,
    TaskStatus, TriggerPayload,
};
use operune_application::values::{
    Duration, ErrorSource, InstallationId, UtcInstant, MAX_INSTANT_NANOS, MAX_SPAN_NANOS,
};

fn utc(seconds: u64) -> UtcInstant {
    match UtcInstant::from_unix_parts(seconds, 0) {
        Some(t) => t,
        None => panic!("instant out of range"),
    }
}

fn installation(seed: u128) -> InstallationId {
    InstallationId { value: seed }
}

fn default_limits() -> SchedulerLimits {
    SchedulerLimits {
        max_tasks_per_installation: 4,
        max_total_tasks: 8,
        delivery_queue_capacity: 16,
        min_periodic_interval: Duration::from_millis(1),
    }
}

fn one_shot(seconds: u64) -> ScheduleTrigger {
    ScheduleTrigger::OneShot { at: utc(seconds) }
}

fn periodic(seconds: u64, interval: Duration) -> ScheduleTrigger {
    ScheduleTrigger::Periodic { next_fire_at: utc(seconds), interval }
}

/// A host that drives the scheduler with a clock of its own.
struct Host {
    service: SchedulerService,
    grants: InProcessSchedulerGrant,
    capacity: usize,
    millis: u64,
    delivered: Vec<TriggerPayload>,
}

impl Host {
    fn new(limits: SchedulerLimits) -> Host {
        Host {
            service: SchedulerService::new(limits),
            grants: InProcessSchedulerGrant::new(),
            capacity: limits.delivery_queue_capacity,
            millis: 0,
            delivered: Vec::new(),
        }
    }

    fn install(&mut self, seed: u128) -> InstallationId {
        let inst = installation(seed);
        self.grants.grant(inst);
        inst
    }

    fn now(&self) -> UtcInstant {
        match utc(1_752_000_000).checked_add(Duration::from_millis(self.millis)) {
            Some(t) => t,
            None => panic!("instant out of range"),
        }
    }

    fn schedule(
        &mut self,
        inst: InstallationId,
        trigger: ScheduleTrigger,
    ) -> Result<u64, SchedulerError> {
        let granted = self.grants.scheduler_granted(inst);
        let now = self.now();
        self.service.schedule(inst, trigger, true, granted, Some(now))
    }

    fn scheduled(&mut self, inst: InstallationId, trigger: ScheduleTrigger) -> u64 {
        match self.schedule(inst, trigger) {
            Ok(id) => id,
            Err(e) => panic!("schedule: {}", e.message()),
        }
    }

    /// Lets time pass, fires what is due, and empties the queue.
    fn advance_ms(&mut self, inst: InstallationId, millis: u64) {
        self.millis += millis;
        let now = self.now();
        if self.service.next_step(inst, Some(now)) == DriverStep::Fire {
            let out = self.service.fire_due(inst, Some(now), self.capacity);
            self.delivered.extend(out);
        }
    }

    fn status(&self, inst: InstallationId, task: u64) -> TaskStatus {
        match self.service.task_status(inst, task) {
            Ok(status) => status,
            Err(e) => panic!("status: {}", e.message()),
        }
    }
}

fn status(state: TaskState, missed_fires: u64, next_fire_at: Option<UtcInstant>) -> TaskStatus {
    TaskStatus { state, missed_fires, next_fire_at }
}

#[test]
fn one_shot_fires_once_at_target_moment() {
    let mut h = Host::new(default_limits());
    let inst = h.install(1);
    let task = h.scheduled(inst, one_shot(1_752_000_010));
    assert_eq!(task, 1);
    h.advance_ms(inst, 9_000);
    assert!(h.delivered.is_empty());
    h.advance_ms(inst, 1_000);
    assert_eq!(
        h.delivered,
        vec![TriggerPayload {
            task,
            sequence: 1,
            scheduled_at: utc(1_752_000_010),
            missed_fires: 0
        }]
    );
    assert_eq!(h.status(inst, task), status(TaskState::Completed, 0, None));
    h.advance_ms(inst, 60_000);
    assert_eq!(h.delivered.len(), 1);
}

#[test]
fn one_shot_in_the_past_is_invalid_trigger() {
    let mut h = Host::new(default_limits());
    let inst = h.install(1);
    let error = h.schedule(inst, one_shot(1_752_000_000));
    assert!(matches!(error, Err(SchedulerError::InvalidTrigger(_))));
    assert_eq!(h.service.task_count(inst), 0);
}

#[test]
fn periodic_fires_on_grid_with_increasing_sequence() {
    let mut h = Host::new(default_limits());
    let inst = h.install(1);
    let task = h.scheduled(inst, periodic(1_752_000_010, Duration::from_secs(10)));
    h.advance_ms(inst, 10_000);
    h.advance_ms(inst, 10_000);
    h.advance_ms(inst, 10_000);
    assert_eq!(h.delivered.len(), 3);
    assert_eq!(h.delivered.iter().map(|p| p.sequence).collect::<Vec<_>>(), vec![1, 2, 3]);
    assert_eq!(
        h.delivered.iter().map(|p| p.scheduled_at).collect::<Vec<_>>(),
        vec![utc(1_752_000_010), utc(1_752_000_020), utc(1_752_000_030)]
    );
    assert_eq!(h.delivered.iter().map(|p| p.missed_fires).collect::<Vec<_>>(), vec![0, 0, 0]);
    assert_eq!(
        h.status(inst, task),
        status(TaskState::Scheduled, 0, Some(utc(1_752_000_040)))
    );
}

#[test]
fn late_pass_hands_on_every_moment() {
    let mut h = Host::new(default_limits());
    let inst = h.install(1);
    let task = h.scheduled(inst, periodic(1_752_000_010, Duration::from_secs(10)));
    h.advance_ms(inst, 35_000);
    assert_eq!(h.delivered.iter().map(|p| p.sequence).collect::<Vec<_>>(), vec![1, 2, 3]);
    assert_eq!(
        h.status(inst, task),
        status(TaskState::Scheduled, 0, Some(utc(1_752_000_040)))
    );
}

#[test]
fn what_finds_no_room_is_missed() {
    let mut entry = TaskEntry {
        trigger: periodic(100, Duration::from_secs(10)),
        state: TaskState::Scheduled,
        sequence: 1,
        missed_fires: 0,
        next_fire_at: Some(utc(100)),
    };
    let out = entry.fire(7, utc(145), 2);
    assert_eq!(out.len(), 2);
    assert_eq!(out[1].sequence, 2);
    assert_eq!(out[1].scheduled_at, utc(110));
    assert_eq!(entry.missed_fires, 3);
    assert_eq!(entry.sequence, 6);
    assert_eq!(entry.next_fire_at, Some(utc(150)));
    let out = entry.fire(7, utc(155), 1);
    assert_eq!(
        out,
        vec![TriggerPayload { task: 7, sequence: 6, scheduled_at: utc(150), missed_fires: 3 }]
    );
    assert_eq!(entry.missed_fires, 0);
}

#[test]
fn one_shot_without_room_is_missed_and_over() {
    let mut entry = TaskEntry {
        trigger: one_shot(100),
        state: TaskState::Scheduled,
        sequence: 1,
        missed_fires: 0,
        next_fire_at: Some(utc(100)),
    };
    assert!(entry.fire(1, utc(100), 0).is_empty());
    assert_eq!(entry.state, TaskState::Completed);
    assert_eq!(entry.missed_fires, 1);
    assert_eq!(entry.next_fire_at, None);
    assert!(entry.fire(1, utc(200), 9).is_empty());
}

#[test]
fn grid_ends_with_time() {
    let last = UtcInstant { nanos: MAX_INSTANT_NANOS - 5 };
    let mut entry = TaskEntry {
        trigger: ScheduleTrigger::Periodic {
            next_fire_at: last,
            interval: Duration::from_secs(10),
        },
        state: TaskState::Scheduled,
        sequence: 1,
        missed_fires: 0,
        next_fire_at: Some(last),
    };
    let out = entry.fire(1, UtcInstant { nanos: MAX_INSTANT_NANOS }, 4);
    assert_eq!(out.len(), 1);
    assert_eq!(entry.state, TaskState::Completed);
    assert_eq!(entry.next_fire_at, None);
}

#[test]
fn periodic_interval_below_floor_is_invalid_trigger() {
    let mut h = Host::new(default_limits());
    let inst = h.install(1);
    let none = Duration { nanos: 0 };
    assert!(matches!(
        h.schedule(inst, periodic(1_752_000_010, none)),
        Err(SchedulerError::InvalidTrigger(_))
    ));
    assert!(h.schedule(inst, periodic(1_752_000_010, Duration::from_millis(1))).is_ok());
}

#[test]
fn trigger_faults_are_exact() {
    let floor = Duration::from_secs(1);
    let now = utc(100);
    assert_eq!(
        validate_trigger(one_shot(100), now, floor),
        Err(SchedulerError::InvalidTrigger("fire-at must be strictly in the future"))
    );
    assert_eq!(validate_trigger(one_shot(101), now, floor), Ok(()));
    assert_eq!(
        validate_trigger(periodic(100, floor), now, floor),
        Err(SchedulerError::InvalidTrigger("next-fire-at must be strictly in the future"))
    );
    assert_eq!(
        validate_trigger(periodic(101, Duration::from_millis(999)), now, floor),
        Err(SchedulerError::InvalidTrigger("interval below the policy minimum"))
    );
    assert_eq!(validate_trigger(periodic(101, floor), now, floor), Ok(()));
}

#[test]
fn queue_overflow_fires_are_counted_as_missed() {
    let mut h = Host::new(SchedulerLimits { delivery_queue_capacity: 1, ..default_limits() });
    let inst = h.install(1);
    let task_a = h.scheduled(inst, periodic(1_752_000_010, Duration::from_secs(60)));
    let task_b = h.scheduled(inst, periodic(1_752_000_010, Duration::from_secs(60)));
    h.advance_ms(inst, 10_000);
    assert_eq!(
        h.status(inst, task_a),
        status(TaskState::Scheduled, 0, Some(utc(1_752_000_070)))
    );
    assert_eq!(
        h.status(inst, task_b),
        status(TaskState::Scheduled, 1, Some(utc(1_752_000_070)))
    );
    assert_eq!(h.service.cancel(inst, task_a), Ok(()));
    h.advance_ms(inst, 60_000);
    let b_payloads: Vec<&TriggerPayload> =
        h.delivered.iter().filter(|payload| payload.task == task_b).collect();
    assert_eq!(b_payloads.len(), 1);
    assert_eq!(b_payloads[0].sequence, 2);
    assert_eq!(b_payloads[0].missed_fires, 1);
    assert_eq!(
        h.status(inst, task_b),
        status(TaskState::Scheduled, 0, Some(utc(1_752_000_130)))
    );
}

#[test]
fn cancel_stops_new_fires_and_unknown_is_not_found() {
    let mut h = Host::new(default_limits());
    let inst = h.install(1);
    let task = h.scheduled(inst, periodic(1_752_000_010, Duration::from_secs(10)));
    assert_eq!(h.service.cancel(inst, task), Ok(()));
    assert_eq!(h.status(inst, task), status(TaskState::Cancelled, 0, None));
    h.advance_ms(inst, 60_000);
    assert!(h.delivered.is_empty());
    assert_eq!(h.service.cancel(inst, task), Err(SchedulerError::NotFound));
    assert_eq!(h.service.cancel(inst, 999), Err(SchedulerError::NotFound));
    assert_eq!(h.service.task_status(inst, 999), Err(SchedulerError::NotFound));
    assert_eq!(h.service.cancel(installation(5), 1), Err(SchedulerError::NotFound));
}

#[test]
fn cancel_after_fire_returns_not_found_for_one_shot() {
    let mut h = Host::new(default_limits());
    let inst = h.install(1);
    let task = h.scheduled(inst, one_shot(1_752_000_010));
    h.advance_ms(inst, 10_000);
    assert_eq!(h.delivered.len(), 1);
    assert_eq!(h.service.cancel(inst, task), Err(SchedulerError::NotFound));
}

#[test]
fn per_installation_task_limit_rejects_over_budget() {
    let mut h = Host::new(default_limits());
    let inst = h.install(1);
    for _ in 0..4 {
        h.scheduled(inst, periodic(1_752_000_010, Duration::from_secs(60)));
    }
    assert_eq!(
        h.schedule(inst, periodic(1_752_000_010, Duration::from_secs(60))),
        Err(SchedulerError::OverBudget)
    );
    assert_eq!(h.service.task_count(inst), 4);
}

#[test]
fn global_task_limit_rejects_over_budget() {
    let mut h = Host::new(SchedulerLimits {
        max_tasks_per_installation: 8,
        max_total_tasks: 2,
        ..default_limits()
    });
    let inst_a = h.install(1);
    let inst_b = h.install(2);
    h.scheduled(inst_a, periodic(1_752_000_010, Duration::from_secs(60)));
    h.scheduled(inst_a, periodic(1_752_000_010, Duration::from_secs(60)));
    assert_eq!(
        h.schedule(inst_b, periodic(1_752_000_010, Duration::from_secs(60))),
        Err(SchedulerError::OverBudget)
    );
    assert_eq!(h.service.cancel(inst_a, 1), Ok(()));
    let id = h.scheduled(inst_b, periodic(1_752_000_010, Duration::from_secs(60)));
    assert_eq!(id, 4, "a number that was taken is not used again");
}

#[test]
fn stop_prevents_new_fires_and_no_catch_up() {
    let mut h = Host::new(default_limits());
    let inst = h.install(1);
    h.scheduled(inst, periodic(1_752_000_010, Duration::from_secs(10)));
    h.advance_ms(inst, 10_000);
    assert_eq!(h.delivered.len(), 1);
    assert!(h.service.stop(inst));
    h.advance_ms(inst, 120_000);
    assert_eq!(h.delivered.len(), 1);
    assert!(h.service.is_stopped(inst));
    assert_eq!(
        h.schedule(inst, periodic(1_752_000_200, Duration::from_secs(60))),
        Err(SchedulerError::NotReady)
    );
    assert_eq!(h.service.cancel(inst, 1), Err(SchedulerError::NotReady));
}

#[test]
fn scheduler_stop_is_idempotent_and_noop_for_unused_installations() {
    let mut h = Host::new(default_limits());
    let inst = h.install(1);
    assert!(h.service.stop(inst));
    assert!(h.service.is_stopped(inst));
    assert!(!h.service.stop(inst));
    assert!(!h.service.is_stopped(installation(2)));
}

#[test]
fn schedule_without_grant_is_denied() {
    let mut h = Host::new(default_limits());
    let inst = installation(9);
    assert_eq!(h.schedule(inst, one_shot(1_752_000_010)), Err(SchedulerError::Denied));
    assert_eq!(h.service.task_count(inst), 0);
}

#[test]
fn schedule_outside_runtime_context_is_not_ready() {
    let mut service = SchedulerService::new(default_limits());
    let inst = installation(1);
    let error = service.schedule(
        inst,
        one_shot(1_752_000_010),
        false,
        Ok(true),
        Some(utc(1_752_000_000)),
    );
    assert!(matches!(error, Err(SchedulerError::NotReady)));
    assert_eq!(service.task_count(inst), 0);
}

#[test]
fn clock_error_maps_to_internal() {
    let mut service = SchedulerService::new(default_limits());
    let clock = SystemClock::new();
    assert_eq!(clock.now(None), Err(ClockError::OutOfRange));
    let error = service.schedule(
        installation(1),
        one_shot(1_752_000_010),
        true,
        Ok(true),
        clock.now(None).ok(),
    );
    assert_eq!(error, Err(SchedulerError::Internal("wall clock unavailable")));
}

#[test]
fn grant_failure_maps_to_internal() {
    let mut service = SchedulerService::new(default_limits());
    let failed = GrantError::Storage(ErrorSource { message: "disk".to_owned() });
    let error = service.schedule(
        installation(1),
        one_shot(1_752_000_010),
        true,
        Err(failed),
        Some(utc(1_752_000_000)),
    );
    assert_eq!(error, Err(SchedulerError::Internal("grant query failed")));
}

#[test]
fn task_status_reflects_state_and_missed() {
    let mut h = Host::new(default_limits());
    let inst = h.install(1);
    let task = h.scheduled(inst, periodic(1_752_000_010, Duration::from_secs(60)));
    assert_eq!(
        h.status(inst, task),
        status(TaskState::Scheduled, 0, Some(utc(1_752_000_010)))
    );
    assert_eq!(
        h.service.task_status(installation(42), task),
        Err(SchedulerError::NotFound)
    );
}

#[test]
fn host_learns_what_to_do_next() {
    let mut h = Host::new(default_limits());
    let inst = h.install(1);
    assert_eq!(h.service.next_step(inst, Some(h.now())), DriverStep::Wait);
    h.scheduled(inst, one_shot(1_752_000_030));
    h.scheduled(inst, one_shot(1_752_000_010));
    assert_eq!(
        h.service.next_step(inst, Some(h.now())),
        DriverStep::Sleep(Duration::from_secs(10))
    );
    assert_eq!(h.service.next_step(inst, None), DriverStep::Leave);
    assert_eq!(h.service.next_step(inst, Some(utc(1_752_000_010))), DriverStep::Fire);
    assert!(h.service.fire_due(inst, None, 4).is_empty());
    assert!(h.service.stop(inst));
    assert_eq!(h.service.next_step(inst, Some(utc(1_752_000_010))), DriverStep::Leave);
    assert!(h.service.fire_due(inst, Some(utc(1_752_000_010)), 4).is_empty());
}

#[test]
fn due_grid_points_counts_due_grid_members() {
    let next = utc(100);
    assert_eq!(due_grid_points(next, utc(100), Duration::from_secs(10)), 1);
    assert_eq!(due_grid_points(next, utc(109), Duration::from_secs(10)), 1);
    assert_eq!(due_grid_points(next, utc(110), Duration::from_secs(10)), 2);
    assert_eq!(due_grid_points(next, utc(130), Duration::from_secs(10)), 4);
    assert_eq!(due_grid_points(next, utc(200), Duration { nanos: 0 }), 1);
    assert_eq!(due_grid_points(next, utc(90), Duration::from_secs(10)), 1);
}

#[test]
fn grid_offset_saturates() {
    assert_eq!(grid_offset(Duration::from_secs(10), 3), Duration::from_secs(30));
    assert_eq!(
        grid_offset(Duration::from_secs(10), u64::MAX),
        Duration::from_secs(10 * u64::from(u32::MAX))
    );
    assert_eq!(
        grid_offset(Duration { nanos: MAX_SPAN_NANOS }, 2),
        Duration { nanos: MAX_SPAN_NANOS }
    );
}

#[test]
fn duration_between_is_forward_and_saturates() {
    assert_eq!(duration_between(utc(100), utc(110)), Duration::from_secs(10));
    assert_eq!(duration_between(utc(110), utc(100)), Duration { nanos: 0 });
}

#[test]
fn system_clock_now_is_representable_and_epoch_or_later() {
    let clock = SystemClock::new();
    let since = std::time::SystemTime::now()
        .duration_since(std::time::UNIX_EPOCH)
        .ok()
        .map(|d| (d.as_secs(), d.subsec_nanos()));
    let now = match clock.now(since) {
        Ok(now) => now,
        Err(e) => panic!("clock: {}", e.message()),
    };
    assert!(now.as_unix_parts().0 >= 1_752_000_000);
    assert!(now.as_unix_parts().1 < 1_000_000_000);
}

#[test]
fn clock_keeps_to_what_can_be_told() {
    let clock = SystemClock::new();
    assert_eq!(clock.now(Some((1, 500))), Ok(UtcInstant { nanos: 1_000_000_500 }));
    assert_eq!(clock.now(Some((1, 1_000_000_000))), Err(ClockError::OutOfRange));
    assert_eq!(clock.now(Some((253_402_300_799, 0))), Ok(utc(253_402_300_799)));
    assert_eq!(clock.now(Some((253_402_300_800, 0))), Err(ClockError::OutOfRange));
}

#[test]
fn in_process_grant_deny_by_default() {
    let mut grants = InProcessSchedulerGrant::new();
    let inst = installation(1);
    assert_eq!(grants.scheduler_granted(inst), Ok(false));
    assert_eq!(grants.granted_count(), 0);
    grants.grant(inst);
    assert_eq!(grants.scheduler_granted(inst), Ok(true));
    assert_eq!(grants.granted_count(), 1);
    grants.revoke(inst);
    assert_eq!(grants.scheduler_granted(inst), Ok(false));
}

#[test]
fn scheduler_errors_in_words() {
    assert_eq!(SchedulerError::Denied.message(), "scheduler capability not granted");
    assert_eq!(SchedulerError::InvalidTrigger("x").message(), "invalid trigger: x");
    assert_eq!(SchedulerError::NotFound.message(), "scheduled task not found");
    assert_eq!(
        SchedulerError::NotReady.message(),
        "scheduler not ready (stopped or no runtime context)"
    );
    assert_eq!(SchedulerError::OverBudget.message(), "scheduler operation over budget");
    assert_eq!(
        SchedulerError::Internal("x").message(),
        "scheduler internal invariant violated: x"
    );
}

#[test]
fn cancel_race_in_flight_fire_may_still_arrive() {
    let mut h = Host::new(default_limits());
    let inst = h.install(1);
    let task = h.scheduled(inst, periodic(1_752_000_010, Duration::from_secs(10)));
    h.advance_ms(inst, 10_000);
    assert_eq!(h.service.cancel(inst, task), Ok(()));
    h.advance_ms(inst, 60_000);
    assert!(h.delivered.len() <= 1, "at most one in-flight fire may arrive");
    assert!(
        h.delivered.iter().all(|payload| payload.task == task && payload.sequence == 1),
        "guest dedup by sequence: no sequence re-delivery"
    );
}

#[test]
fn numbers_are_left_for_tasks() {
    assert!(SchedulerService::new(default_limits()).numbers_left());
}
