//! The scheduler: each installation's timers, within the host's limits.
//!
//! A host calls [`SchedulerService::next_step`] to learn how long it may sleep,
//! and [`SchedulerService::fire_due`] when a timer is due. What fires goes into a
//! bounded queue to the guest; what finds no room there is counted as missed.
use vstd::prelude::*;

use crate::ports::GrantError;
use crate::table::Table;
use crate::timers;
use crate::timers::{duration_between, ScheduleTrigger, TaskEntry, TaskState, TaskStatus, TriggerPayload};
use crate::values::{Duration, InstallationId, UtcInstant};

verus! {

/// What the host allows its scheduler.
#[derive(Debug, Clone, Copy, PartialEq, Eq, Structural)]
pub struct SchedulerLimits {
    pub max_tasks_per_installation: usize,
    pub max_total_tasks: usize,
    pub delivery_queue_capacity: usize,
    pub min_periodic_interval: Duration,
}

impl Default for SchedulerLimits {
    fn default() -> (r: SchedulerLimits)
        ensures
            r == (SchedulerLimits {
                max_tasks_per_installation: 64,
                max_total_tasks: 1024,
                delivery_queue_capacity: 16,
                min_periodic_interval: Duration { nanos: 1_000_000 },
            }),
    {
        SchedulerLimits {
            max_tasks_per_installation: 64,
            max_total_tasks: 1024,
            delivery_queue_capacity: 16,
            min_periodic_interval: Duration::from_millis(1),
        }
    }
}

/// Why the scheduler turns a request away.
#[derive(Debug, Clone, Copy, PartialEq, Eq)]
pub enum SchedulerError {
    Denied,
    InvalidTrigger(&'static str),
    NotFound,
    NotReady,
    OverBudget,
    Internal(&'static str),
}

impl SchedulerError {
    pub open spec fn text(self) -> Seq<char> {
        match self {
            SchedulerError::Denied => "scheduler capability not granted"@,
            SchedulerError::InvalidTrigger(reason) => "invalid trigger: "@ + reason@,
            SchedulerError::NotFound => "scheduled task not found"@,
            SchedulerError::NotReady => "scheduler not ready (stopped or no runtime context)"@,
            SchedulerError::OverBudget => "scheduler operation over budget"@,
            SchedulerError::Internal(reason) => "scheduler internal invariant violated: "@ + reason@,
        }
    }

    /// The error in words.
    pub fn message(&self) -> (r: String)
        ensures
            r@ == self.text(),
    {
        match self {
            SchedulerError::Denied => String::from_str("scheduler capability not granted"),
            SchedulerError::InvalidTrigger(reason) => crate::text::joined("invalid trigger: ", reason),
            SchedulerError::NotFound => String::from_str("scheduled task not found"),
            SchedulerError::NotReady => String::from_str(
                "scheduler not ready (stopped or no runtime context)",
            ),
            SchedulerError::OverBudget => String::from_str("scheduler operation over budget"),
            SchedulerError::Internal(reason) => crate::text::joined(
                "scheduler internal invariant violated: ",
                reason,
            ),
        }
    }
}

/// What is wrong with a trigger at the time it is registered.
pub open spec fn trigger_fault(
    trigger: ScheduleTrigger,
    now: UtcInstant,
    min_interval: Duration,
) -> Option<SchedulerError> {
    match trigger {
        ScheduleTrigger::OneShot { at } => if at.nanos <= now.nanos {
            Some(SchedulerError::InvalidTrigger("fire-at must be strictly in the future"))
        } else {
            None
        },
        ScheduleTrigger::Periodic { next_fire_at, interval } => if next_fire_at.nanos <= now.nanos {
            Some(SchedulerError::InvalidTrigger("next-fire-at must be strictly in the future"))
        } else if interval.nanos < min_interval.nanos {
            Some(SchedulerError::InvalidTrigger("interval below the policy minimum"))
        } else {
            None
        },
    }
}

/// Checks a trigger at the time it is registered.
pub fn validate_trigger(trigger: ScheduleTrigger, now: UtcInstant, min_interval: Duration) -> (r: Result<
    (),
    SchedulerError,
>)
    ensures
        match r {
            Ok(_) => trigger_fault(trigger, now, min_interval) is None,
            Err(e) => trigger_fault(trigger, now, min_interval) == Some(e),
        },
{
    match trigger {
        ScheduleTrigger::OneShot { at } => {
            if at.nanos <= now.nanos {
                return Err(SchedulerError::InvalidTrigger("fire-at must be strictly in the future"));
            }
        },
        ScheduleTrigger::Periodic { next_fire_at, interval } => {
            if next_fire_at.nanos <= now.nanos {
                return Err(
                    SchedulerError::InvalidTrigger("next-fire-at must be strictly in the future"),
                );
            }
            if interval.nanos < min_interval.nanos {
                return Err(SchedulerError::InvalidTrigger("interval below the policy minimum"));
            }
        },
    }
    Ok(())
}

/// The tasks that are still to fire.
pub open spec fn live(tasks: Map<u128, TaskEntry>) -> Set<u128> {
    Set::new(|id: u128| tasks.dom().contains(id) && tasks[id].state == TaskState::Scheduled)
}

/// How many tasks are still to fire.
fn scheduled_count(tasks: &Table<TaskEntry>) -> (r: usize)
    requires
        tasks.wf(),
    ensures
        live(tasks@).finite(),
        r == live(tasks@).len(),
{
    let n: usize = tasks.len();
    let mut count: usize = 0;
    let mut place: usize = 0;
    let ghost mut seen: Set<u128> = Set::empty();
    proof {
        tasks.lemma_keys();
    }
    while place < n
        invariant
            tasks.wf(),
            n == tasks.keys().len(),
            0 <= place <= n,
            count <= place,
            seen.finite(),
            count == seen.len(),
            forall|i: int, j: int|
                0 <= i < j < tasks.keys().len() ==> #[trigger] tasks.keys()[i] < #[trigger] tasks.keys()[j],
            forall|id: u128| #[trigger]
                seen.contains(id) ==> exists|i: int|
                    0 <= i < place && #[trigger] tasks.keys()[i] == id && live(tasks@).contains(id),
            forall|i: int|
                0 <= i < place && live(tasks@).contains(#[trigger] tasks.keys()[i]) ==> seen.contains(
                    tasks.keys()[i],
                ),
        decreases n - place,
    {
        let (id, task) = tasks.entry(place);
        let scheduled: bool = match task.state {
            TaskState::Scheduled => true,
            _ => false,
        };
        assert(live(tasks@).contains(id) == scheduled);
        if scheduled {
            count = count + 1;
            proof {
                seen = seen.insert(id);
            }
        }
        place = place + 1;
    }
    proof {
        assert forall|id: u128| live(tasks@).contains(id) implies seen.contains(id) by {
            assert(tasks.keys().contains(id));
            let i = choose|i: int| 0 <= i < tasks.keys().len() && tasks.keys()[i] == id;
        }
        assert(live(tasks@) =~= seen);
    }
    count
}

/// When the next task fires: the earliest of those still to fire.
pub open spec fn is_earliest(tasks: Map<u128, TaskEntry>, next: Option<UtcInstant>) -> bool {
    match next {
        Some(t) => {
            &&& exists|id: u128| #[trigger]
                live(tasks).contains(id) && tasks[id].next_fire_at == Some(t)
            &&& forall|id: u128| #[trigger]
                live(tasks).contains(id) && tasks[id].next_fire_at is Some ==> t.nanos
                    <= tasks[id].next_fire_at->0.nanos
        },
        None => forall|id: u128| #[trigger]
            live(tasks).contains(id) ==> tasks[id].next_fire_at is None,
    }
}

/// When the next task fires.
fn earliest_next_fire(tasks: &Table<TaskEntry>) -> (r: Option<UtcInstant>)
    requires
        tasks.wf(),
    ensures
        is_earliest(tasks@, r),
{
    let n: usize = tasks.len();
    let mut place: usize = 0;
    let mut earliest: Option<UtcInstant> = None;
    proof {
        tasks.lemma_keys();
    }
    while place < n
        invariant
            tasks.wf(),
            n == tasks.keys().len(),
            0 <= place <= n,
            match earliest {
                Some(t) => {
                    &&& exists|id: u128| #[trigger]
                        live(tasks@).contains(id) && tasks@[id].next_fire_at == Some(t)
                    &&& forall|i: int|
                        0 <= i < place && live(tasks@).contains(#[trigger] tasks.keys()[i])
                            && tasks@[tasks.keys()[i]].next_fire_at is Some ==> t.nanos
                            <= tasks@[tasks.keys()[i]].next_fire_at->0.nanos
                },
                None => forall|i: int|
                    0 <= i < place && live(tasks@).contains(#[trigger] tasks.keys()[i])
                        ==> tasks@[tasks.keys()[i]].next_fire_at is None,
            },
        decreases n - place,
    {
        let (id, task) = tasks.entry(place);
        let scheduled: bool = match task.state {
            TaskState::Scheduled => true,
            _ => false,
        };
        assert(live(tasks@).contains(id) == scheduled);
        if scheduled {
            match task.next_fire_at {
                Some(t) => {
                    let sooner: bool = match earliest {
                        Some(best) => t.nanos < best.nanos,
                        None => true,
                    };
                    if sooner {
                        earliest = Some(t);
                    }
                },
                None => {},
            }
        }
        place = place + 1;
    }
    proof {
        assert forall|id: u128| #[trigger] live(tasks@).contains(id) implies exists|i: int|
            0 <= i < n && #[trigger] tasks.keys()[i] == id by {
            assert(tasks.keys().contains(id));
        }
    }
    earliest
}

/// One list after another.
pub open spec fn concat(parts: Seq<Seq<TriggerPayload>>) -> Seq<TriggerPayload>
    decreases parts.len(),
{
    if parts.len() == 0 {
        Seq::empty()
    } else {
        concat(parts.drop_last()) + parts.last()
    }
}

/// What a walk over tasks does with the task at a place: it fires into the room
/// that those before it left.
pub open spec fn fired_at(
    ids: Seq<u128>,
    before: Map<u128, TaskEntry>,
    now: UtcInstant,
    room: nat,
    after: Map<u128, TaskEntry>,
    parts: Seq<Seq<TriggerPayload>>,
    i: int,
) -> bool {
    &&& concat(parts.take(i)).len() <= room
    &&& before[ids[i]].fires(
        ids[i] as u64,
        now,
        (room - concat(parts.take(i)).len()) as nat,
        after[ids[i]],
        parts[i],
    )
}

/// What a walk over tasks does in a pass at `now`: each in turn fires into the
/// room that those before it left. `parts` holds what each hands on.
#[verifier::opaque]
pub open spec fn fired(
    ids: Seq<u128>,
    before: Map<u128, TaskEntry>,
    now: UtcInstant,
    room: nat,
    after: Map<u128, TaskEntry>,
    parts: Seq<Seq<TriggerPayload>>,
) -> bool {
    &&& parts.len() == ids.len()
    &&& forall|i: int|
        0 <= i < ids.len() ==> #[trigger] fired_at(ids, before, now, room, after, parts, i)
}

proof fn lemma_fired_one_more(
    ids: Seq<u128>,
    place: int,
    before: Map<u128, TaskEntry>,
    now: UtcInstant,
    room: nat,
    was: Map<u128, TaskEntry>,
    after: Map<u128, TaskEntry>,
    parts: Seq<Seq<TriggerPayload>>,
    part: Seq<TriggerPayload>,
)
    requires
        0 <= place < ids.len(),
        ascends(ids),
        fired(ids.take(place), before, now, room, was, parts),
        concat(parts).len() <= room,
        forall|id: u128| id != ids[place] ==> #[trigger] after[id] == was[id],
        before[ids[place]].fires(
            ids[place] as u64,
            now,
            (room - concat(parts).len()) as nat,
            after[ids[place]],
            part,
        ),
    ensures
        fired(ids.take(place + 1), before, now, room, after, parts.push(part)),
{
    reveal(fired);
    let head = ids.take(place);
    let longer = ids.take(place + 1);
    let more = parts.push(part);
    assert forall|i: int| 0 <= i < longer.len() implies #[trigger] fired_at(
        longer,
        before,
        now,
        room,
        after,
        more,
        i,
    ) by {
        assert(more.take(i) =~= parts.take(i));
        if i < place {
            assert(fired_at(head, before, now, room, was, parts, i));
            assert(longer[i] == head[i]);
            assert(more[i] == parts[i]);
            assert(ids[i] < ids[place]);
            assert(after[head[i]] == was[head[i]]);
        } else {
            assert(parts.take(i) =~= parts);
        }
    }
}

/// Moves the contents of one list to the end of another.
fn extend(out: &mut Vec<TriggerPayload>, more: &Vec<TriggerPayload>)
    ensures
        final(out)@ == old(out)@ + more@,
{
    let ghost before = out@;
    let mut i: usize = 0;
    while i < more.len()
        invariant
            i <= more@.len(),
            out@ == before + more@.take(i as int),
        decreases more@.len() - i,
    {
        out.push(more[i]);
        i = i + 1;
        assert(out@ =~= before + more@.take(i as int));
    }
    assert(more@.take(i as int) =~= more@);
}

/// Fires what is due among an installation's tasks.
fn fire_tasks(tasks: &mut Table<TaskEntry>, now: UtcInstant, room: usize) -> (r: (
    Vec<TriggerPayload>,
    Ghost<Seq<Seq<TriggerPayload>>>,
))
    requires
        old(tasks).wf(),
        now.wf(),
        forall|id: u128| #[trigger]
            old(tasks)@.dom().contains(id) ==> old(tasks)@[id].wf() && id <= u64::MAX,
    ensures
        final(tasks).wf(),
        final(tasks).keys() == old(tasks).keys(),
        final(tasks)@.dom() == old(tasks)@.dom(),
        forall|id: u128| #[trigger] final(tasks)@.dom().contains(id) ==> final(tasks)@[id].wf(),
        live(final(tasks)@).subset_of(live(old(tasks)@)),
        fired(old(tasks).keys(), old(tasks)@, now, room as nat, final(tasks)@, r.1@),
        r.0@ == concat(r.1@),
        r.0@.len() <= room,
{
    let ghost before = *tasks;
    let ghost ids = tasks.keys();
    let n: usize = tasks.len();
    let mut out: Vec<TriggerPayload> = Vec::new();
    let ghost mut parts: Seq<Seq<TriggerPayload>> = Seq::empty();
    let mut place: usize = 0;
    proof {
        tasks.lemma_keys();
        reveal(fired);
    }
    while place < n
        invariant
            before.wf(),
            tasks.wf(),
            now.wf(),
            ids == before.keys(),
            tasks.keys() == ids,
            n == ids.len(),
            0 <= place <= n,
            before@.dom() == tasks@.dom(),
            forall|i: int| 0 <= i < ids.len() ==> before@.dom().contains(#[trigger] ids[i]),
            ascends(ids),
            forall|id: u128| #[trigger]
                before@.dom().contains(id) ==> before@[id].wf() && id <= u64::MAX,
            forall|id: u128| #[trigger] tasks@.dom().contains(id) ==> tasks@[id].wf(),
            forall|i: int| place <= i < n ==> tasks@[#[trigger] ids[i]] == before@[ids[i]],
            live(tasks@).subset_of(live(before@)),
            fired(ids.take(place as int), before@, now, room as nat, tasks@, parts),
            out@ == concat(parts),
            out@.len() <= room,
        decreases n - place,
    {
        let ghost was = tasks@;
        let (id, entry) = tasks.entry(place);
        let mut task: TaskEntry = *entry;
        assert(before@.dom().contains(ids[place as int]));
        let left: usize = room - out.len();
        let payloads = task.fire(id as u64, now, left);
        tasks.insert(id, task);
        extend(&mut out, &payloads);
        proof {
            lemma_fired_one_more(ids, place as int, before@, now, room as nat, was, tasks@, parts, payloads@);
            assert(parts.push(payloads@).drop_last() =~= parts);
            parts = parts.push(payloads@);
            assert(tasks@.dom() =~= before@.dom());
            assert forall|k: u128| live(tasks@).contains(k) implies live(before@).contains(k) by {
                if k != id {
                    assert(live(was).contains(k));
                }
            }
        }
        place = place + 1;
    }
    assert(ids.take(n as int) =~= ids);
    (out, Ghost(parts))
}

/// An installation's tasks.
#[derive(Debug)]
pub struct InstallTasks {
    /// No task of a stopped installation is registered or fires.
    pub stopped: bool,
    pub tasks: Table<TaskEntry>,
}

/// What a host does next for an installation's timers.
#[derive(Debug, Clone, Copy, PartialEq, Eq, Structural)]
pub enum DriverStep {
    /// Nothing is to fire: wait for a task to be registered.
    Wait,
    /// The scheduler was stopped, or the clock cannot be read: leave the timers.
    Leave,
    /// Something is due: fire it.
    Fire,
    /// Sleep, and fire when woken by the clock.
    Sleep(Duration),
}

/// The scheduler of a host.
#[derive(Debug)]
pub struct SchedulerService {
    installs: Table<InstallTasks>,
    limits: SchedulerLimits,
    next_task_id: u64,
}

impl SchedulerService {
    pub closed spec fn limits(&self) -> SchedulerLimits {
        self.limits
    }

    /// The number that the next task gets.
    pub closed spec fn next_id(&self) -> int {
        self.next_task_id as int
    }

    /// The installation's scheduler was stopped.
    pub closed spec fn stopped(&self, installation: InstallationId) -> bool {
        self.installs@.dom().contains(installation.value) && self.installs@[installation.value].stopped
    }

    /// The installation's tasks, under their numbers.
    pub closed spec fn tasks(&self, installation: InstallationId) -> Map<u128, TaskEntry> {
        if self.installs@.dom().contains(installation.value) {
            self.installs@[installation.value].tasks@
        } else {
            Map::empty()
        }
    }

    /// Every task of the host that is still to fire, with its installation.
    pub open spec fn all_live(&self) -> Set<(InstallationId, u128)> {
        Set::new(|p: (InstallationId, u128)| live(self.tasks(p.0)).contains(p.1))
    }

    /// The limits hold, and every task has a number of its own.
    pub closed spec fn wf(&self) -> bool {
        &&& self.installs.wf()
        &&& forall|key: u128| #[trigger]
            self.installs@.dom().contains(key) ==> {
                let tasks = self.installs@[key].tasks;
                &&& tasks.wf()
                &&& live(tasks@).len() <= self.limits.max_tasks_per_installation
                &&& forall|id: u128| #[trigger]
                    tasks@.dom().contains(id) ==> tasks@[id].wf() && id < self.next_task_id
            }
        &&& self.all_live().finite()
        &&& self.all_live().len() <= self.limits.max_total_tasks
    }

    /// What the invariant says of what can be seen from outside.
    pub proof fn lemma_wf(&self)
        requires
            self.wf(),
        ensures
            self.all_live().finite(),
            self.all_live().len() <= self.limits().max_total_tasks,
            forall|installation: InstallationId|
                live(#[trigger] self.tasks(installation)).len()
                    <= self.limits().max_tasks_per_installation,
            forall|installation: InstallationId, id: u128| #[trigger]
                self.tasks(installation).dom().contains(id) ==> self.tasks(installation)[id].wf() && id
                    < self.next_id(),
    {
        assert forall|installation: InstallationId|
            live(#[trigger] self.tasks(installation)).len() <= self.limits().max_tasks_per_installation by {
            if !self.installs@.dom().contains(installation.value) {
                assert(live(self.tasks(installation)) =~= Set::<u128>::empty());
            }
        }
    }

    /// An empty scheduler.
    pub fn new(limits: SchedulerLimits) -> (r: SchedulerService)
        ensures
            r.wf(),
            r.limits() == limits,
            r.next_id() == 1,
            forall|x: InstallationId| #[trigger] r.tasks(x) == Map::<u128, TaskEntry>::empty(),
            forall|x: InstallationId| !#[trigger] r.stopped(x),
    {
        let r = SchedulerService { installs: Table::new(), limits, next_task_id: 1 };
        proof {
            assert(r.all_live() =~= Set::<(InstallationId, u128)>::empty());
        }
        r
    }

    /// Whether there is a number left for another task.
    pub fn numbers_left(&self) -> (r: bool)
        ensures
            r == (self.next_id() < u64::MAX),
    {
        self.next_task_id < u64::MAX
    }

    /// How many tasks of the host are still to fire, as far as the number fits.
    fn total(&self) -> (r: usize)
        requires
            self.wf(),
        ensures
            r == self.all_live().len() || (r == usize::MAX && self.all_live().len() > r),
    {
        let n: usize = self.installs.len();
        let mut place: usize = 0;
        let mut sum: usize = 0;
        let ghost mut seen: Set<(InstallationId, u128)> = Set::empty();
        let ghost mut exact: nat = 0;
        proof {
            self.installs.lemma_keys();
        }
        while place < n
            invariant
                self.wf(),
                n == self.installs.keys().len(),
                0 <= place <= n,
                seen.finite(),
                exact == seen.len(),
                sum == exact || (sum == usize::MAX && exact > sum),
                forall|i: int, j: int|
                    0 <= i < j < self.installs.keys().len() ==> #[trigger] self.installs.keys()[i]
                        < #[trigger] self.installs.keys()[j],
                forall|p: (InstallationId, u128)| #[trigger]
                    seen.contains(p) ==> self.all_live().contains(p) && exists|i: int|
                        0 <= i < place && #[trigger] self.installs.keys()[i] == p.0.value,
                forall|p: (InstallationId, u128), i: int|
                    0 <= i < place && #[trigger] self.installs.keys()[i] == p.0.value
                        && #[trigger] self.all_live().contains(p) ==> seen.contains(p),
            decreases n - place,
        {
            let (key, install) = self.installs.entry(place);
            let count: usize = scheduled_count(&install.tasks);
            proof {
                let owner = InstallationId { value: key };
                let column = live(install.tasks@);
                assert(self.tasks(owner) == install.tasks@);
                lemma_column(seen, owner, column);
                seen = with_column(seen, owner, column);
                exact = exact + count as nat;
            }
            sum = sum.saturating_add(count);
            place = place + 1;
        }
        proof {
            assert forall|p: (InstallationId, u128)| self.all_live().contains(p) implies seen.contains(p) by {
                assert(self.installs@.dom().contains(p.0.value));
                assert(self.installs.keys().contains(p.0.value));
                let i = choose|i: int|
                    0 <= i < self.installs.keys().len() && self.installs.keys()[i] == p.0.value;
            }
            assert(self.all_live() =~= seen);
        }
        sum
    }

    /// What a registration answers, from what the host could find out before it.
    pub open spec fn schedule_outcome(
        &self,
        installation: InstallationId,
        trigger: ScheduleTrigger,
        in_runtime: bool,
        granted: Result<bool, GrantError>,
        now: Option<UtcInstant>,
    ) -> Result<u64, SchedulerError> {
        if !in_runtime {
            Err(SchedulerError::NotReady)
        } else if granted is Err {
            Err(SchedulerError::Internal("grant query failed"))
        } else if !granted->Ok_0 {
            Err(SchedulerError::Denied)
        } else if now is None {
            Err(SchedulerError::Internal("wall clock unavailable"))
        } else if let Some(fault) = trigger_fault(
            trigger,
            now->0,
            self.limits().min_periodic_interval,
        ) {
            Err(fault)
        } else if self.all_live().len() >= self.limits().max_total_tasks {
            Err(SchedulerError::OverBudget)
        } else if self.stopped(installation) {
            Err(SchedulerError::NotReady)
        } else if live(self.tasks(installation)).len() >= self.limits().max_tasks_per_installation {
            Err(SchedulerError::OverBudget)
        } else {
            Ok(self.next_id() as u64)
        }
    }

    /// The registration gets as far as taking a number for its task.
    pub open spec fn takes_number(
        &self,
        trigger: ScheduleTrigger,
        in_runtime: bool,
        granted: Result<bool, GrantError>,
        now: Option<UtcInstant>,
    ) -> bool {
        &&& in_runtime
        &&& granted == Ok::<bool, GrantError>(true)
        &&& now is Some
        &&& trigger_fault(trigger, now->0, self.limits().min_periodic_interval) is None
    }

    /// Registers a task. `in_runtime` tells whether timers can be driven here,
    /// `granted` what the grant store said, and `now` what the clock read, if it
    /// could be read.
    ///
    /// A number that a registration took is not used again, even where the
    /// registration is then turned away.
    pub fn schedule(
        &mut self,
        installation: InstallationId,
        trigger: ScheduleTrigger,
        in_runtime: bool,
        granted: Result<bool, GrantError>,
        now: Option<UtcInstant>,
    ) -> (r: Result<u64, SchedulerError>)
        requires
            old(self).wf(),
            trigger.wf(),
            old(self).next_id() < u64::MAX,
        ensures
            final(self).wf(),
            final(self).limits() == old(self).limits(),
            r == old(self).schedule_outcome(installation, trigger, in_runtime, granted, now),
            final(self).next_id() == old(self).next_id() + if old(self).takes_number(
                trigger,
                in_runtime,
                granted,
                now,
            ) {
                1int
            } else {
                0
            },
            forall|x: InstallationId| #[trigger] final(self).stopped(x) == old(self).stopped(x),
            forall|x: InstallationId|
                x != installation ==> #[trigger] final(self).tasks(x) == old(self).tasks(x),
            final(self).tasks(installation) == match r {
                Ok(id) => old(self).tasks(installation).insert(id as u128, TaskEntry::fresh(trigger)),
                Err(_) => old(self).tasks(installation),
            },
    {
        if !in_runtime {
            return Err(SchedulerError::NotReady);
        }
        let granted: bool = match granted {
            Ok(granted) => granted,
            Err(_) => return Err(SchedulerError::Internal("grant query failed")),
        };
        if !granted {
            return Err(SchedulerError::Denied);
        }
        let now: UtcInstant = match now {
            Some(now) => now,
            None => return Err(SchedulerError::Internal("wall clock unavailable")),
        };
        match validate_trigger(trigger, now, self.limits.min_periodic_interval) {
            Ok(_) => {},
            Err(e) => return Err(e),
        }
        let ghost before = *self;
        proof {
            before.lemma_wf();
        }
        let id: u64 = self.next_task_id;
        self.next_task_id = id + 1;
        proof {
            assert forall|x: InstallationId| #[trigger] self.tasks(x) == before.tasks(x) by {}
            assert(self.all_live() =~= before.all_live());
        }
        let total: usize = self.total();
        if total >= self.limits.max_total_tasks {
            return Err(SchedulerError::OverBudget);
        }
        let (stopped, count): (bool, usize) = match self.installs.get(installation.value) {
            Some(install) => (install.stopped, scheduled_count(&install.tasks)),
            None => (false, 0),
        };
        proof {
            if !self.installs@.dom().contains(installation.value) {
                assert(live(self.tasks(installation)) =~= Set::<u128>::empty());
            }
        }
        if stopped {
            return Err(SchedulerError::NotReady);
        }
        if count >= self.limits.max_tasks_per_installation {
            return Err(SchedulerError::OverBudget);
        }
        let mut install: InstallTasks = match self.installs.remove(installation.value) {
            Some(install) => install,
            None => InstallTasks { stopped: false, tasks: Table::new() },
        };
        let ghost tasks = install.tasks@;
        assert(tasks == before.tasks(installation));
        assert(!tasks.dom().contains(id as u128));
        install.tasks.insert(
            id as u128,
            TaskEntry {
                trigger,
                state: TaskState::Scheduled,
                sequence: 1,
                missed_fires: 0,
                next_fire_at: Some(trigger.first_fire_at()),
            },
        );
        proof {
            assert(live(install.tasks@) =~= live(tasks).insert(id as u128));
            install.tasks.lemma_keys();
            vstd::set_lib::lemma_set_subset_finite(install.tasks@.dom(), live(install.tasks@));
            vstd::set_lib::lemma_set_subset_finite(live(install.tasks@), live(tasks));
        }
        self.installs.insert(installation.value, install);
        proof {
            assert(self.tasks(installation) == tasks.insert(id as u128, TaskEntry::fresh(trigger)));
            assert forall|x: InstallationId| x != installation implies #[trigger] self.tasks(x)
                == before.tasks(x) by {
                assert(x.value != installation.value);
            }
            assert forall|x: InstallationId| #[trigger] self.stopped(x) == before.stopped(x) by {
                if x != installation {
                    assert(x.value != installation.value);
                }
            }
            assert(self.all_live() =~= before.all_live().insert((installation, id as u128)));
        }
        Ok(id)
    }

    /// The task is known and still to fire.
    pub open spec fn is_live(&self, installation: InstallationId, id: u64) -> bool {
        live(self.tasks(installation)).contains(id as u128)
    }

    /// Puts an installation's tasks back with one of them changed, none made live.
    proof fn lemma_changed(before: SchedulerService, after: SchedulerService, installation: InstallationId)
        requires
            before.wf(),
            after.installs.wf(),
            after.limits == before.limits,
            after.next_task_id == before.next_task_id,
            after.installs@.dom().contains(installation.value),
            forall|key: u128|
                key != installation.value ==> (#[trigger] after.installs@.dom().contains(key)
                    == before.installs@.dom().contains(key)),
            forall|key: u128|
                key != installation.value && before.installs@.dom().contains(key)
                    ==> #[trigger] after.installs@[key] == before.installs@[key],
            after.installs@[installation.value].tasks.wf(),
            live(after.tasks(installation)).subset_of(live(before.tasks(installation))),
            forall|id: u128| #[trigger]
                after.tasks(installation).dom().contains(id) ==> after.tasks(installation)[id].wf() && id
                    < after.next_task_id,
        ensures
            after.wf(),
            forall|x: InstallationId|
                x != installation ==> #[trigger] after.tasks(x) == before.tasks(x),
            forall|x: InstallationId|
                x != installation ==> #[trigger] after.stopped(x) == before.stopped(x),
    {
        before.lemma_wf();
        assert forall|x: InstallationId| x != installation implies #[trigger] after.tasks(x)
            == before.tasks(x) && after.stopped(x) == before.stopped(x) by {
            assert(x.value != installation.value);
            assert(after.installs@.dom().contains(x.value) == before.installs@.dom().contains(x.value));
            if before.installs@.dom().contains(x.value) {
                assert(after.installs@[x.value] == before.installs@[x.value]);
            }
        }
        assert(after.all_live().subset_of(before.all_live())) by {
            assert forall|p: (InstallationId, u128)| after.all_live().contains(p) implies before.all_live().contains(
                p,
            ) by {
                assert(live(after.tasks(p.0)).contains(p.1));
                if p.0 != installation {
                    assert(after.tasks(p.0) == before.tasks(p.0));
                }
            }
        }
        vstd::set_lib::lemma_set_subset_finite(before.all_live(), after.all_live());
        vstd::set_lib::lemma_len_subset(after.all_live(), before.all_live());
        let old_live = live(before.tasks(installation));
        let new_live = live(after.tasks(installation));
        assert(old_live.finite()) by {
            if before.installs@.dom().contains(installation.value) {
                before.installs@[installation.value].tasks.lemma_keys();
                vstd::set_lib::lemma_set_subset_finite(before.tasks(installation).dom(), old_live);
            } else {
                assert(old_live =~= Set::<u128>::empty());
            }
        }
        vstd::set_lib::lemma_len_subset(new_live, old_live);
        assert forall|key: u128| #[trigger] after.installs@.dom().contains(key) implies {
            let tasks = after.installs@[key].tasks;
            &&& tasks.wf()
            &&& live(tasks@).len() <= after.limits.max_tasks_per_installation
            &&& forall|id: u128| #[trigger]
                tasks@.dom().contains(id) ==> tasks@[id].wf() && id < after.next_task_id
        } by {
            if key == installation.value {
                assert(after.tasks(installation) == after.installs@[key].tasks@);
            } else {
                assert(before.installs@.dom().contains(key));
                assert(after.installs@[key] == before.installs@[key]);
            }
        }
    }

    /// Cancels a task: it fires no more.
    pub fn cancel(&mut self, installation: InstallationId, id: u64) -> (r: Result<(), SchedulerError>)
        requires
            old(self).wf(),
        ensures
            final(self).wf(),
            final(self).limits() == old(self).limits(),
            final(self).next_id() == old(self).next_id(),
            match r {
                Ok(_) => !old(self).stopped(installation) && old(self).is_live(installation, id),
                Err(e) => if old(self).stopped(installation) {
                    e == SchedulerError::NotReady
                } else {
                    e == SchedulerError::NotFound && !old(self).is_live(installation, id)
                },
            },
            forall|x: InstallationId| #[trigger] final(self).stopped(x) == old(self).stopped(x),
            forall|x: InstallationId|
                x != installation ==> #[trigger] final(self).tasks(x) == old(self).tasks(x),
            final(self).tasks(installation) == if r is Ok {
                old(self).tasks(installation).insert(
                    id as u128,
                    (TaskEntry {
                        state: TaskState::Cancelled,
                        next_fire_at: None,
                        ..old(self).tasks(installation)[id as u128]
                    }),
                )
            } else {
                old(self).tasks(installation)
            },
    {
        let ghost before = *self;
        let found: Option<TaskEntry> = match self.installs.get(installation.value) {
            None => return Err(SchedulerError::NotFound),
            Some(install) => {
                if install.stopped {
                    return Err(SchedulerError::NotReady);
                }
                match install.tasks.get(id as u128) {
                    Some(task) => Some(*task),
                    None => None,
                }
            },
        };
        let mut task: TaskEntry = match found {
            Some(task) => task,
            None => return Err(SchedulerError::NotFound),
        };
        match task.state {
            TaskState::Scheduled => {},
            _ => return Err(SchedulerError::NotFound),
        }
        task.state = TaskState::Cancelled;
        task.next_fire_at = None;
        match self.installs.remove(installation.value) {
            Some(mut install) => {
                install.tasks.insert(id as u128, task);
                self.installs.insert(installation.value, install);
            },
            None => {},
        }
        proof {
            assert(self.tasks(installation) == before.tasks(installation).insert(id as u128, task));
            assert(live(self.tasks(installation)).subset_of(live(before.tasks(installation))));
            assert forall|x: u128| #[trigger] self.tasks(installation).dom().contains(x) implies self.tasks(
                installation,
            )[x].wf() && x < self.next_task_id by {
                assert(before.tasks(installation).dom().contains(x));
            }
            SchedulerService::lemma_changed(before, *self, installation);
        }
        Ok(())
    }

    /// What is known of a task.
    pub fn task_status(&self, installation: InstallationId, id: u64) -> (r: Result<
        TaskStatus,
        SchedulerError,
    >)
        requires
            self.wf(),
        ensures
            match r {
                Ok(status) => {
                    let task = self.tasks(installation)[id as u128];
                    &&& self.tasks(installation).dom().contains(id as u128)
                    &&& status == (TaskStatus {
                        state: task.state,
                        missed_fires: task.missed_fires,
                        next_fire_at: task.next_fire_at,
                    })
                },
                Err(e) => e == SchedulerError::NotFound && !self.tasks(installation).dom().contains(
                    id as u128,
                ),
            },
    {
        match self.installs.get(installation.value) {
            None => Err(SchedulerError::NotFound),
            Some(install) => match install.tasks.get(id as u128) {
                None => Err(SchedulerError::NotFound),
                Some(task) => Ok(
                    TaskStatus {
                        state: task.state,
                        missed_fires: task.missed_fires,
                        next_fire_at: task.next_fire_at,
                    },
                ),
            },
        }
    }

    /// Stops an installation's scheduler for good. Tells whether it was running.
    pub fn stop(&mut self, installation: InstallationId) -> (r: bool)
        requires
            old(self).wf(),
        ensures
            final(self).wf(),
            final(self).limits() == old(self).limits(),
            final(self).next_id() == old(self).next_id(),
            r == !old(self).stopped(installation),
            final(self).stopped(installation),
            forall|x: InstallationId|
                x != installation ==> #[trigger] final(self).stopped(x) == old(self).stopped(x),
            forall|x: InstallationId| #[trigger] final(self).tasks(x) == old(self).tasks(x),
    {
        let ghost before = *self;
        proof {
            before.lemma_wf();
        }
        let mut install: InstallTasks = match self.installs.remove(installation.value) {
            Some(install) => install,
            None => InstallTasks { stopped: false, tasks: Table::new() },
        };
        let was_running: bool = !install.stopped;
        install.stopped = true;
        self.installs.insert(installation.value, install);
        proof {
            assert(self.tasks(installation) == before.tasks(installation));
            SchedulerService::lemma_changed(before, *self, installation);
        }
        was_running
    }

    /// The installation's scheduler was stopped.
    pub fn is_stopped(&self, installation: InstallationId) -> (r: bool)
        requires
            self.wf(),
        ensures
            r == self.stopped(installation),
    {
        match self.installs.get(installation.value) {
            Some(install) => install.stopped,
            None => false,
        }
    }

    /// How many tasks an installation has, those included that fire no more.
    pub fn task_count(&self, installation: InstallationId) -> (r: usize)
        requires
            self.wf(),
        ensures
            r == self.tasks(installation).dom().len(),
    {
        match self.installs.get(installation.value) {
            Some(install) => install.tasks.len(),
            None => 0,
        }
    }

    /// What a host does next for an installation's timers, where its clock reads
    /// `now`, if it can be read. Once the installation's scheduler was stopped there
    /// is nothing left to do.
    pub fn next_step(&self, installation: InstallationId, now: Option<UtcInstant>) -> (r: DriverStep)
        requires
            self.wf(),
        ensures
            self.stopped(installation) ==> r == DriverStep::Leave,
            !self.stopped(installation) ==> exists|next: Option<UtcInstant>| #[trigger]
                is_earliest(self.tasks(installation), next) && r == match next {
                    None => DriverStep::Wait,
                    Some(next) => match now {
                        None => DriverStep::Leave,
                        Some(now) => if next.nanos <= now.nanos {
                            DriverStep::Fire
                        } else {
                            DriverStep::Sleep(Duration { nanos: (next.nanos - now.nanos) as u128 })
                        },
                    },
                },
    {
        proof {
            self.lemma_wf();
        }
        let next: Option<UtcInstant> = match self.installs.get(installation.value) {
            Some(install) => {
                if install.stopped {
                    return DriverStep::Leave;
                }
                earliest_next_fire(&install.tasks)
            },
            None => None,
        };
        assert(is_earliest(self.tasks(installation), next));
        match next {
            None => DriverStep::Wait,
            Some(next) => match now {
                None => DriverStep::Leave,
                Some(now) => if next.nanos <= now.nanos {
                    DriverStep::Fire
                } else {
                    assert(next.wf());
                    DriverStep::Sleep(duration_between(now, next))
                },
            },
        }
    }

    /// Fires what is due among an installation's tasks, where the clock reads
    /// `now`, if it can be read, and the delivery queue takes `room` more. What
    /// is returned goes into the queue, in order.
    pub fn fire_due(&mut self, installation: InstallationId, now: Option<UtcInstant>, room: usize) -> (out:
        Vec<TriggerPayload>)
        requires
            old(self).wf(),
            now matches Some(t) ==> t.wf(),
        ensures
            final(self).wf(),
            final(self).limits() == old(self).limits(),
            final(self).next_id() == old(self).next_id(),
            out@.len() <= room,
            forall|x: InstallationId| #[trigger] final(self).stopped(x) == old(self).stopped(x),
            forall|x: InstallationId|
                x != installation ==> #[trigger] final(self).tasks(x) == old(self).tasks(x),
            final(self).tasks(installation).dom() == old(self).tasks(installation).dom(),
            if now is None || old(self).stopped(installation) {
                &&& final(self).tasks(installation) == old(self).tasks(installation)
                &&& out@.len() == 0
            } else {
                exists|ids: Seq<u128>, parts: Seq<Seq<TriggerPayload>>|
                    {
                        &&& ascends(ids)
                        &&& ids.to_set() == old(self).tasks(installation).dom()
                        &&& #[trigger] fired(
                            ids,
                            old(self).tasks(installation),
                            now->0,
                            room as nat,
                            final(self).tasks(installation),
                            parts,
                        )
                        &&& out@ == concat(parts)
                    }
            },
    {
        let ghost before = *self;
        let now: UtcInstant = match now {
            Some(now) => now,
            None => return Vec::new(),
        };
        match self.installs.get(installation.value) {
            Some(install) => {
                if install.stopped {
                    return Vec::new();
                }
            },
            None => {
                proof {
                    reveal(fired);
                    let ids = Seq::<u128>::empty();
                    assert(ids.to_set() =~= self.tasks(installation).dom());
                    assert(fired(
                        ids,
                        self.tasks(installation),
                        now,
                        room as nat,
                        self.tasks(installation),
                        Seq::empty(),
                    ));
                }
                return Vec::new();
            },
        }
        let mut out: Vec<TriggerPayload> = Vec::new();
        match self.installs.remove(installation.value) {
            Some(mut install) => {
                proof {
                    install.tasks.lemma_keys();
                }
                let ghost tasks = install.tasks;
                let (payloads, Ghost(parts)) = fire_tasks(&mut install.tasks, now, room);
                out = payloads;
                self.installs.insert(installation.value, install);
                proof {
                    assert(before.tasks(installation) == tasks@);
                    assert(ascends(tasks.keys()));
                    SchedulerService::lemma_changed(before, *self, installation);
                    assert(fired(
                        tasks.keys(),
                        before.tasks(installation),
                        now,
                        room as nat,
                        self.tasks(installation),
                        parts,
                    ));
                }
            },
            None => {},
        }
        out
    }
}

/// The numbers ascend strictly.
pub open spec fn ascends(ids: Seq<u128>) -> bool {
    forall|i: int, j: int| 0 <= i < j < ids.len() ==> #[trigger] ids[i] < #[trigger] ids[j]
}

spec fn with_column(
    seen: Set<(InstallationId, u128)>,
    owner: InstallationId,
    column: Set<u128>,
) -> Set<(InstallationId, u128)> {
    Set::new(|p: (InstallationId, u128)| seen.contains(p) || (p.0 == owner && column.contains(p.1)))
}

proof fn lemma_column(seen: Set<(InstallationId, u128)>, owner: InstallationId, column: Set<u128>)
    requires
        seen.finite(),
        column.finite(),
        forall|p: (InstallationId, u128)| #[trigger] seen.contains(p) ==> p.0 != owner,
    ensures
        with_column(seen, owner, column).finite(),
        with_column(seen, owner, column).len() == seen.len() + column.len(),
    decreases column.len(),
{
    if column.len() == 0 {
        assert(column =~= Set::<u128>::empty());
        assert(with_column(seen, owner, column) =~= seen);
    } else {
        let id = column.choose();
        lemma_column(seen, owner, column.remove(id));
        assert(with_column(seen, owner, column) =~= with_column(seen, owner, column.remove(id)).insert(
            (owner, id),
        ));
    }
}

/// Some task that is still to fire has this number.
pub open spec fn is_of_live_task(ids: Seq<u128>, before: Map<u128, TaskEntry>, payload: TriggerPayload) -> bool {
    exists|j: int|
        0 <= j < ids.len() && before[#[trigger] ids[j]].state == TaskState::Scheduled && payload.task
            == ids[j] as u64
}

/// What a pass hands on is of tasks that were still to fire. So nothing comes of a
/// task after it was cancelled, or has completed.
pub proof fn law_only_scheduled_tasks_fire(
    ids: Seq<u128>,
    before: Map<u128, TaskEntry>,
    now: UtcInstant,
    room: nat,
    after: Map<u128, TaskEntry>,
    parts: Seq<Seq<TriggerPayload>>,
)
    requires
        fired(ids, before, now, room, after, parts),
    ensures
        forall|k: int| 0 <= k < concat(parts).len() ==> is_of_live_task(ids, before, #[trigger] concat(parts)[k]),
        forall|i: int|
            0 <= i < ids.len() && before[#[trigger] ids[i]].state != TaskState::Scheduled ==> after[ids[i]]
                == before[ids[i]],
{
    reveal(fired);
    assert forall|i: int|
        0 <= i < ids.len() && before[#[trigger] ids[i]].state != TaskState::Scheduled implies after[ids[i]]
        == before[ids[i]] by {
        assert(fired_at(ids, before, now, room, after, parts, i));
        timers::law_finished_task_never_fires(
            before[ids[i]],
            ids[i] as u64,
            now,
            (room - concat(parts.take(i)).len()) as nat,
            after[ids[i]],
            parts[i],
        );
    }
    lemma_live_parts(ids, before, now, room, after, parts, parts.len() as int);
    assert(parts.take(parts.len() as int) =~= parts);
}

proof fn lemma_live_parts(
    ids: Seq<u128>,
    before: Map<u128, TaskEntry>,
    now: UtcInstant,
    room: nat,
    after: Map<u128, TaskEntry>,
    parts: Seq<Seq<TriggerPayload>>,
    n: int,
)
    requires
        fired(ids, before, now, room, after, parts),
        0 <= n <= parts.len(),
    ensures
        forall|k: int|
            0 <= k < concat(parts.take(n)).len() ==> is_of_live_task(
                ids,
                before,
                #[trigger] concat(parts.take(n))[k],
            ),
    decreases n,
{
    if n > 0 {
        reveal(fired);
        let i = n - 1;
        lemma_live_parts(ids, before, now, room, after, parts, i);
        assert(parts.take(n).drop_last() =~= parts.take(i));
        let sooner = concat(parts.take(i));
        let left = (room - sooner.len()) as nat;
        assert(fired_at(ids, before, now, room, after, parts, i));
        if before[ids[i]].state != TaskState::Scheduled {
            timers::law_finished_task_never_fires(
                before[ids[i]],
                ids[i] as u64,
                now,
                left,
                after[ids[i]],
                parts[i],
            );
        } else {
            timers::law_firings_name_their_task(
                before[ids[i]],
                ids[i] as u64,
                now,
                left,
                after[ids[i]],
                parts[i],
            );
        }
        assert forall|k: int| 0 <= k < concat(parts.take(n)).len() implies is_of_live_task(
            ids,
            before,
            #[trigger] concat(parts.take(n))[k],
        ) by {
            if k < sooner.len() {
                assert(concat(parts.take(n))[k] == sooner[k]);
            } else {
                assert(concat(parts.take(n))[k] == parts[i][k - sooner.len()]);
                assert(before[ids[i]].state == TaskState::Scheduled);
            }
        }
    }
}

/// Law: a trigger is taken exactly where its first moment is still to come and,
/// where it repeats, its interval is no shorter than the least one.
pub proof fn law_trigger_is_taken_where_it_lies_ahead(trigger: ScheduleTrigger, now: UtcInstant, min_interval: Duration)
    ensures
        trigger_fault(trigger, now, min_interval) is None <==> match trigger {
            ScheduleTrigger::OneShot { at } => now.nanos < at.nanos,
            ScheduleTrigger::Periodic { next_fire_at, interval } => now.nanos < next_fire_at.nanos
                && min_interval.nanos <= interval.nanos,
        },
        trigger_fault(trigger, now, min_interval) matches Some(fault) ==> fault is InvalidTrigger,
        trigger matches ScheduleTrigger::OneShot { at } ==> at.nanos <= now.nanos ==> trigger_fault(
            trigger,
            now,
            min_interval,
        ) == Some(SchedulerError::InvalidTrigger("fire-at must be strictly in the future")),
        trigger matches ScheduleTrigger::Periodic { next_fire_at, interval } ==> next_fire_at.nanos <= now.nanos
            ==> trigger_fault(trigger, now, min_interval) == Some(
            SchedulerError::InvalidTrigger("next-fire-at must be strictly in the future"),
        ),
        trigger matches ScheduleTrigger::Periodic { next_fire_at, interval } ==> next_fire_at.nanos > now.nanos
            && interval.nanos < min_interval.nanos ==> trigger_fault(trigger, now, min_interval) == Some(
            SchedulerError::InvalidTrigger("interval below the policy minimum"),
        ),
{
}

/// Law: a registration succeeds exactly where the host runs, the capability is
/// granted, the clock can be read, the trigger lies ahead and repeats no faster
/// than allowed, the installation is not stopped, and both the host and the
/// installation have room for one more task. The task gets the next number.
pub proof fn law_registration_succeeds_where_nothing_stands_against_it(
    service: SchedulerService,
    installation: InstallationId,
    trigger: ScheduleTrigger,
    in_runtime: bool,
    granted: Result<bool, GrantError>,
    now: Option<UtcInstant>,
)
    ensures
        service.schedule_outcome(installation, trigger, in_runtime, granted, now) is Ok <==> {
            &&& in_runtime
            &&& granted matches Ok(yes) && yes
            &&& now matches Some(t) && match trigger {
                ScheduleTrigger::OneShot { at } => t.nanos < at.nanos,
                ScheduleTrigger::Periodic { next_fire_at, interval } => t.nanos < next_fire_at.nanos
                    && service.limits().min_periodic_interval.nanos <= interval.nanos,
            }
            &&& !service.stopped(installation)
            &&& service.all_live().len() < service.limits().max_total_tasks
            &&& live(service.tasks(installation)).len() < service.limits().max_tasks_per_installation
        },
        service.schedule_outcome(installation, trigger, in_runtime, granted, now) matches Ok(id) ==> id
            == service.next_id() as u64,
{
}

/// Law: a registration that fails tells the first of its causes, in the order in
/// which they are looked for: the host, the grant, the clock, the trigger, the
/// host's room, the installation, and its room.
pub proof fn law_registration_tells_its_first_cause(
    service: SchedulerService,
    installation: InstallationId,
    trigger: ScheduleTrigger,
    granted: Result<bool, GrantError>,
    now: UtcInstant,
)
    ensures
        service.schedule_outcome(installation, trigger, false, granted, Some(now)) == Err::<u64, SchedulerError>(
            SchedulerError::NotReady,
        ),
        granted is Err ==> service.schedule_outcome(installation, trigger, true, granted, Some(now)) == Err::<
            u64,
            SchedulerError,
        >(SchedulerError::Internal("grant query failed")),
        granted == Ok::<bool, GrantError>(false) ==> service.schedule_outcome(
            installation,
            trigger,
            true,
            granted,
            Some(now),
        ) == Err::<u64, SchedulerError>(SchedulerError::Denied),
        granted == Ok::<bool, GrantError>(true) ==> {
            let limits = service.limits();
            let fault = trigger_fault(trigger, now, limits.min_periodic_interval);
            let full = service.all_live().len() >= limits.max_total_tasks;
            let outcome = service.schedule_outcome(installation, trigger, true, granted, Some(now));
            &&& service.schedule_outcome(installation, trigger, true, granted, None) == Err::<u64, SchedulerError>(
                SchedulerError::Internal("wall clock unavailable"),
            )
            &&& fault is Some ==> outcome == Err::<u64, SchedulerError>(fault->0)
            &&& fault is None && full ==> outcome == Err::<u64, SchedulerError>(SchedulerError::OverBudget)
            &&& fault is None && !full && service.stopped(installation) ==> outcome == Err::<u64, SchedulerError>(
                SchedulerError::NotReady,
            )
            &&& fault is None && !full && !service.stopped(installation) && live(
                service.tasks(installation),
            ).len() >= limits.max_tasks_per_installation ==> outcome == Err::<u64, SchedulerError>(
                SchedulerError::OverBudget,
            )
        },
{
}

/// Law: every registration that succeeds takes a number, and one whose trigger is
/// refused takes none.
pub proof fn law_successful_registration_takes_a_number(
    service: SchedulerService,
    installation: InstallationId,
    trigger: ScheduleTrigger,
    in_runtime: bool,
    granted: Result<bool, GrantError>,
    now: Option<UtcInstant>,
)
    ensures
        service.schedule_outcome(installation, trigger, in_runtime, granted, now) is Ok ==> service.takes_number(
            trigger,
            in_runtime,
            granted,
            now,
        ),
        service.takes_number(trigger, in_runtime, granted, now) ==> {
            &&& in_runtime
            &&& granted == Ok::<bool, GrantError>(true)
            &&& now is Some
            &&& trigger_fault(trigger, now->0, service.limits().min_periodic_interval) is None
        },
{
}

/// Law: a task is still to fire exactly where it is known and neither cancelled
/// nor completed.
pub proof fn law_live_tasks_are_the_scheduled_ones(service: SchedulerService, installation: InstallationId, id: u64)
    ensures
        service.is_live(installation, id) <==> service.tasks(installation).dom().contains(id as u128)
            && service.tasks(installation)[id as u128].state == TaskState::Scheduled,
        service.all_live().contains((installation, id as u128)) <==> service.is_live(installation, id),
        forall|x: u128| #[trigger]
            live(service.tasks(installation)).contains(x) <==> service.tasks(installation).dom().contains(x)
                && service.tasks(installation)[x].state == TaskState::Scheduled,
{
}

/// Law: the next moment is that of some task still to fire, and no such task has an
/// earlier one; there is none exactly where no such task has a moment.
pub proof fn law_next_moment_is_the_earliest(tasks: Map<u128, TaskEntry>, next: Option<UtcInstant>, id: u128)
    requires
        is_earliest(tasks, next),
        tasks.dom().contains(id),
        tasks[id].state == TaskState::Scheduled,
    ensures
        tasks[id].next_fire_at is Some ==> next is Some,
        tasks[id].next_fire_at matches Some(t) ==> next->0.nanos <= t.nanos,
        next matches Some(t) ==> exists|x: u128| {
            &&& #[trigger] tasks.dom().contains(x)
            &&& tasks[x].state == TaskState::Scheduled
            &&& tasks[x].next_fire_at == Some(t)
        },
{
    assert(live(tasks).contains(id));
    if next is Some {
        let x = choose|x: u128| #[trigger] live(tasks).contains(x) && tasks[x].next_fire_at == next;
        assert(tasks.dom().contains(x));
    }
}

/// The payloads in a row of lists.
pub open spec fn total(parts: Seq<Seq<TriggerPayload>>) -> int
    decreases parts.len(),
{
    if parts.len() == 0 {
        0
    } else {
        total(parts.drop_last()) + parts.last().len()
    }
}

proof fn lemma_total(parts: Seq<Seq<TriggerPayload>>)
    ensures
        concat(parts).len() == total(parts),
    decreases parts.len(),
{
    if parts.len() > 0 {
        lemma_total(parts.drop_last());
    }
}

/// Law: lists put one after another keep every payload in its place: a payload of
/// one list stands as far behind the start as there are payloads before it.
pub proof fn law_lists_are_put_one_after_another(parts: Seq<Seq<TriggerPayload>>, i: int, k: int)
    requires
        0 <= i < parts.len(),
        0 <= k < parts[i].len(),
    ensures
        concat(parts).len() == total(parts),
        0 <= total(parts.take(i)) + k < total(parts),
        concat(parts)[total(parts.take(i)) + k] == parts[i][k],
    decreases parts.len(),
{
    lemma_total(parts);
    lemma_total(parts.take(i));
    let init = parts.drop_last();
    lemma_total(init);
    if i < parts.len() - 1 {
        law_lists_are_put_one_after_another(init, i, k);
        assert(init.take(i) =~= parts.take(i));
        assert(init[i] == parts[i]);
    } else {
        assert(parts.take(i) =~= init);
    }
}

/// Law: in a pass every task has its turn, in order, with the room that the tasks
/// before it have left, and what all of them hand on together fits the room that
/// there was.
pub proof fn law_every_task_has_its_turn(
    ids: Seq<u128>,
    before: Map<u128, TaskEntry>,
    now: UtcInstant,
    room: nat,
    after: Map<u128, TaskEntry>,
    parts: Seq<Seq<TriggerPayload>>,
    i: int,
)
    requires
        fired(ids, before, now, room, after, parts),
        0 <= i < ids.len(),
    ensures
        parts.len() == ids.len(),
        total(parts.take(i)) <= room,
        before[ids[i]].fires(ids[i] as u64, now, (room - total(parts.take(i))) as nat, after[ids[i]], parts[i]),
        total(parts.take(i + 1)) <= room,
{
    reveal(fired);
    reveal(TaskEntry::fires);
    lemma_total(parts.take(i));
    assert(fired_at(ids, before, now, room, after, parts, i));
    assert(parts.take(i + 1).drop_last() =~= parts.take(i));
}

/// Law: the scheduler tells each error in its own words, with the reason behind them
/// where there is one.
pub proof fn law_scheduler_errors_are_worded(error: SchedulerError)
    ensures
        error is Denied ==> error.text() == "scheduler capability not granted"@,
        error matches SchedulerError::InvalidTrigger(reason) ==> error.text() == "invalid trigger: "@ + reason@,
        error is NotFound ==> error.text() == "scheduled task not found"@,
        error is NotReady ==> error.text() == "scheduler not ready (stopped or no runtime context)"@,
        error is OverBudget ==> error.text() == "scheduler operation over budget"@,
        error matches SchedulerError::Internal(reason) ==> error.text()
            == "scheduler internal invariant violated: "@ + reason@,
{
}

/// Law: numbers that ascend stand in order, and none stands twice.
pub proof fn law_ascending_numbers_stand_once(ids: Seq<u128>, i: int, j: int)
    requires
        ascends(ids),
        0 <= i < ids.len(),
        0 <= j < ids.len(),
    ensures
        i < j <==> ids[i] < ids[j],
        i == j <==> ids[i] == ids[j],
{
}

} // verus!
