//! Timers: when a task fires, and what a firing hands to its guest.
//!
//! A periodic task fires on a grid of moments one interval apart. A moment that
//! has passed is either handed on or counted as missed; none is made up for.
use vstd::prelude::*;

use crate::values::{Duration, UtcInstant, MAX_INSTANT_NANOS, MAX_SPAN_NANOS};

verus! {

/// When a task fires.
#[allow(inconsistent_fields)]
#[derive(Debug, Clone, Copy, PartialEq, Eq, Structural)]
pub enum ScheduleTrigger {
    OneShot { at: UtcInstant },
    Periodic { next_fire_at: UtcInstant, interval: Duration },
}

impl ScheduleTrigger {
    pub open spec fn wf(self) -> bool {
        match self {
            ScheduleTrigger::OneShot { at } => at.wf(),
            ScheduleTrigger::Periodic { next_fire_at, interval } => next_fire_at.wf() && interval.wf(),
        }
    }

    pub open spec fn spec_first_fire_at(self) -> UtcInstant {
        match self {
            ScheduleTrigger::OneShot { at } => at,
            ScheduleTrigger::Periodic { next_fire_at, interval } => next_fire_at,
        }
    }

    /// The first moment at which the task fires.
    pub fn first_fire_at(self) -> (r: UtcInstant)
        ensures
            r == self.spec_first_fire_at(),
    {
        match self {
            ScheduleTrigger::OneShot { at } => at,
            ScheduleTrigger::Periodic { next_fire_at, .. } => next_fire_at,
        }
    }
}

/// Whether a task is still to fire.
#[derive(Debug, Clone, Copy, PartialEq, Eq, Structural)]
pub enum TaskState {
    Scheduled,
    Cancelled,
    Completed,
}

/// What a guest may ask about its task.
#[derive(Debug, Clone, Copy, PartialEq, Eq, Structural)]
pub struct TaskStatus {
    pub state: TaskState,
    pub missed_fires: u64,
    pub next_fire_at: Option<UtcInstant>,
}

/// What a firing hands to its guest.
#[derive(Debug, Clone, Copy, PartialEq, Eq, Structural)]
pub struct TriggerPayload {
    pub task: u64,
    pub sequence: u64,
    pub scheduled_at: UtcInstant,
    pub missed_fires: u64,
}

/// A task as the scheduler keeps it.
#[derive(Debug, Clone, Copy, PartialEq, Eq, Structural)]
pub struct TaskEntry {
    pub trigger: ScheduleTrigger,
    pub state: TaskState,
    /// The number of the next firing. Every firing uses one up, handed on or
    /// missed.
    pub sequence: u64,
    /// Firings missed since the last that was handed on.
    pub missed_fires: u64,
    pub next_fire_at: Option<UtcInstant>,
}

/// `a + b`, or the largest number that fits.
pub open spec fn capped_sum(a: int, b: int) -> int {
    if a + b > u64::MAX {
        u64::MAX as int
    } else {
        a + b
    }
}

/// How many moments of the grid have passed by `now`: `next` itself, and every
/// further interval up to `now`. At least one.
pub open spec fn due_points(next: UtcInstant, now: UtcInstant, interval: Duration) -> int {
    if interval.nanos == 0 || now.nanos < next.nanos {
        1
    } else {
        let k = (now.nanos - next.nanos) / (interval.nanos as int) + 1;
        if k > u64::MAX {
            u64::MAX as int
        } else {
            k
        }
    }
}

/// How many moments of the grid have passed by `now`.
pub fn due_grid_points(next: UtcInstant, now: UtcInstant, interval: Duration) -> (r: u64)
    requires
        next.wf(),
        now.wf(),
    ensures
        r == due_points(next, now, interval),
        r >= 1,
{
    if interval.nanos == 0 {
        return 1;
    }
    if now.nanos < next.nanos {
        return 1;
    }
    let elapsed: u128 = now.nanos - next.nanos;
    let whole: u128 = elapsed / interval.nanos;
    proof {
        assert(whole <= elapsed) by (nonlinear_arith)
            requires
                whole == elapsed / interval.nanos,
                interval.nanos > 0,
        ;
        assert(whole >= 0) by (nonlinear_arith)
            requires
                whole == elapsed / interval.nanos,
                interval.nanos > 0,
        ;
    }
    if whole >= u64::MAX as u128 {
        u64::MAX
    } else {
        whole as u64 + 1
    }
}

/// How far the `k`-th moment of the grid lies after the first. It is capped
/// where it cannot be told.
pub open spec fn offset_of(interval: Duration, k: int) -> int {
    let factor = if k > u32::MAX {
        u32::MAX as int
    } else {
        k
    };
    if interval.nanos * factor > MAX_SPAN_NANOS {
        MAX_SPAN_NANOS as int
    } else {
        interval.nanos * factor
    }
}

/// How far the `k`-th moment of the grid lies after the first.
pub fn grid_offset(interval: Duration, k: u64) -> (r: Duration)
    requires
        interval.wf(),
    ensures
        r.wf(),
        r.nanos == offset_of(interval, k as int),
{
    let factor: u128 = if k > u32::MAX as u64 {
        u32::MAX as u128
    } else {
        k as u128
    };
    proof {
        assert(interval.nanos * factor <= MAX_SPAN_NANOS * 4_294_967_295) by (nonlinear_arith)
            requires
                interval.nanos <= MAX_SPAN_NANOS,
                factor <= 4_294_967_295,
        ;
        assert(MAX_SPAN_NANOS * 4_294_967_295 <= u128::MAX);
    }
    let nanos: u128 = interval.nanos * factor;
    if nanos > MAX_SPAN_NANOS {
        Duration { nanos: MAX_SPAN_NANOS }
    } else {
        Duration { nanos }
    }
}

/// The span from one moment to a later one; nothing where it is not later.
pub fn duration_between(from: UtcInstant, to: UtcInstant) -> (r: Duration)
    requires
        to.wf(),
    ensures
        r.wf(),
        r.nanos == if to.nanos >= from.nanos {
            to.nanos - from.nanos
        } else {
            0
        },
{
    if to.nanos >= from.nanos {
        Duration { nanos: to.nanos - from.nanos }
    } else {
        Duration { nanos: 0 }
    }
}

impl TaskEntry {
    pub open spec fn wf(self) -> bool {
        &&& self.trigger.wf()
        &&& self.next_fire_at matches Some(t) ==> t.wf()
    }

    /// A task that has only been registered.
    pub open spec fn fresh(trigger: ScheduleTrigger) -> TaskEntry {
        TaskEntry {
            trigger,
            state: TaskState::Scheduled,
            sequence: 1,
            missed_fires: 0,
            next_fire_at: Some(trigger.spec_first_fire_at()),
        }
    }

    /// The task is to fire at `now`.
    pub open spec fn is_due(self, now: UtcInstant) -> bool {
        &&& self.state == TaskState::Scheduled
        &&& self.next_fire_at matches Some(next) && next.nanos <= now.nanos
    }

    /// What the `k`-th firing of a pass hands on.
    pub open spec fn payload_at(self, id: u64, interval: Duration, k: int) -> TriggerPayload {
        TriggerPayload {
            task: id,
            sequence: capped_sum(self.sequence as int, k) as u64,
            scheduled_at: UtcInstant {
                nanos: (self.next_fire_at->0.nanos + offset_of(interval, k)) as u128,
            },
            missed_fires: if k == 0 {
                self.missed_fires
            } else {
                0
            },
        }
    }

    /// The `k`-th moment of the grid can be told.
    pub open spec fn on_grid(self, interval: Duration, k: int) -> bool {
        self.next_fire_at->0.nanos + offset_of(interval, k) <= MAX_INSTANT_NANOS
    }

    /// What a pass at `now` does with a one-shot task that is due, where the
    /// delivery queue has room for `room` more.
    pub open spec fn fires_once(self, id: u64, room: nat, after: TaskEntry, out: Seq<TriggerPayload>) -> bool {
        &&& after == TaskEntry {
            sequence: capped_sum(self.sequence as int, 1) as u64,
            state: TaskState::Completed,
            next_fire_at: None,
            missed_fires: after.missed_fires,
            ..self
        }
        &&& if room > 0 {
            &&& out == seq![
                TriggerPayload {
                    task: id,
                    sequence: self.sequence,
                    scheduled_at: self.next_fire_at->0,
                    missed_fires: self.missed_fires,
                },
            ]
            &&& after.missed_fires == 0
        } else {
            &&& out.len() == 0
            &&& after.missed_fires == capped_sum(self.missed_fires as int, 1)
        }
    }

    /// What a pass at `now` does with a periodic task that is due, where the
    /// delivery queue has room for `room` more: the moments that have passed are
    /// handed on in order while there is room; the rest are missed.
    pub open spec fn fires_on_grid(
        self,
        id: u64,
        interval: Duration,
        now: UtcInstant,
        room: nat,
        after: TaskEntry,
        out: Seq<TriggerPayload>,
    ) -> bool {
        let due = due_points(self.next_fire_at->0, now, interval);
        let sent = out.len();
        let carried = if sent == 0 {
            self.missed_fires as int
        } else {
            0
        };
        &&& sent <= due && sent <= room
        &&& forall|k: int|
            0 <= k < sent ==> #[trigger] out[k] == self.payload_at(id, interval, k) && self.on_grid(
                interval,
                k,
            )
        &&& after.trigger == self.trigger
        &&& after.sequence == capped_sum(self.sequence as int, due)
        &&& if sent == due || !self.on_grid(interval, sent as int) {
            after.missed_fires == carried
        } else {
            &&& sent == room
            &&& after.missed_fires == capped_sum(carried, due - sent)
        }
        &&& if self.on_grid(interval, due) {
            &&& after.state == self.state
            &&& after.next_fire_at == Some(
                UtcInstant {
                    nanos: (self.next_fire_at->0.nanos + offset_of(interval, due)) as u128,
                },
            )
        } else {
            &&& after.state == TaskState::Completed
            &&& after.next_fire_at is None
        }
    }

    /// What a pass at `now` does with a task.
    #[verifier::opaque]
    pub open spec fn fires(
        self,
        id: u64,
        now: UtcInstant,
        room: nat,
        after: TaskEntry,
        out: Seq<TriggerPayload>,
    ) -> bool {
        if self.is_due(now) {
            match self.trigger {
                ScheduleTrigger::OneShot { at } => self.fires_once(id, room, after, out),
                ScheduleTrigger::Periodic { next_fire_at, interval } => self.fires_on_grid(
                    id,
                    interval,
                    now,
                    room,
                    after,
                    out,
                ),
            }
        } else {
            after == self && out.len() == 0
        }
    }

    fn fire_once(&mut self, id: u64, room: usize) -> (out: Vec<TriggerPayload>)
        requires
            old(self).wf(),
            old(self).next_fire_at is Some,
        ensures
            final(self).wf(),
            old(self).fires_once(id, room as nat, *final(self), out@),
            out@.len() <= room,
    {
        let payload = TriggerPayload {
            task: id,
            sequence: self.sequence,
            scheduled_at: self.next_fire_at.unwrap(),
            missed_fires: self.missed_fires,
        };
        self.sequence = self.sequence.saturating_add(1);
        self.state = TaskState::Completed;
        self.next_fire_at = None;
        let mut out: Vec<TriggerPayload> = Vec::new();
        if room > 0 {
            out.push(payload);
            self.missed_fires = 0;
        } else {
            self.missed_fires = self.missed_fires.saturating_add(1);
        }
        assert(room > 0 ==> out@ =~= seq![payload]);
        out
    }

    fn fire_on_grid(&mut self, id: u64, interval: Duration, now: UtcInstant, room: usize) -> (out: Vec<
        TriggerPayload,
    >)
        requires
            old(self).wf(),
            now.wf(),
            interval.wf(),
            old(self).is_due(now),
        ensures
            final(self).wf(),
            old(self).fires_on_grid(id, interval, now, room as nat, *final(self), out@),
            out@.len() <= room,
    {
        let ghost before = *self;
        let next: UtcInstant = self.next_fire_at.unwrap();
        let due: u64 = due_grid_points(next, now, interval);
        let mut out: Vec<TriggerPayload> = Vec::new();
        let mut k: u64 = 0;
        let mut missed: u64 = self.missed_fires;
        let mut on_grid: bool = true;
        let mut full: bool = false;
        while k < due && on_grid && !full
            invariant
                before.wf(),
                interval.wf(),
                *self == before,
                before.next_fire_at == Some(next),
                due == due_points(next, now, interval),
                0 <= k <= due,
                out@.len() == k,
                k <= room,
                forall|j: int|
                    0 <= j < k ==> #[trigger] out@[j] == before.payload_at(id, interval, j)
                        && before.on_grid(interval, j),
                !full ==> missed == if k == 0 {
                    before.missed_fires
                } else {
                    0
                },
                !on_grid ==> k < due && !before.on_grid(interval, k as int) && !full,
                full ==> {
                    &&& on_grid
                    &&& k < due
                    &&& k == room
                    &&& before.on_grid(interval, k as int)
                    &&& missed == capped_sum(
                        if k == 0 {
                            before.missed_fires as int
                        } else {
                            0
                        },
                        due - k,
                    )
                },
            decreases
                    due - k,
                    if on_grid && !full {
                        1int
                    } else {
                        0int
                    },
        {
            match next.checked_add(grid_offset(interval, k)) {
                None => {
                    on_grid = false;
                },
                Some(scheduled_at) => {
                    if (k as usize) < room && k <= usize::MAX as u64 {
                        out.push(
                            TriggerPayload {
                                task: id,
                                sequence: self.sequence.saturating_add(k),
                                scheduled_at,
                                missed_fires: missed,
                            },
                        );
                        missed = 0;
                        k = k + 1;
                    } else {
                        missed = missed.saturating_add(due.saturating_sub(k));
                        full = true;
                    }
                },
            }
        }
        self.missed_fires = missed;
        self.sequence = self.sequence.saturating_add(due);
        match next.checked_add(grid_offset(interval, due)) {
            Some(next_fire_at) => {
                self.next_fire_at = Some(next_fire_at);
            },
            None => {
                self.state = TaskState::Completed;
                self.next_fire_at = None;
            },
        }
        out
    }

    /// Fires the task, where it is due at `now`, into a queue with room for
    /// `room` more.
    pub fn fire(&mut self, id: u64, now: UtcInstant, room: usize) -> (out: Vec<TriggerPayload>)
        requires
            old(self).wf(),
            now.wf(),
        ensures
            final(self).wf(),
            old(self).fires(id, now, room as nat, *final(self), out@),
            out@.len() <= room,
            final(self).state == TaskState::Scheduled ==> old(self).state == TaskState::Scheduled,
    {
        proof {
            reveal(TaskEntry::fires);
        }
        let scheduled: bool = match self.state {
            TaskState::Scheduled => true,
            _ => false,
        };
        let due: bool = match self.next_fire_at {
            Some(next) => scheduled && next.nanos <= now.nanos,
            None => false,
        };
        if !due {
            return Vec::new();
        }
        match self.trigger {
            ScheduleTrigger::OneShot { .. } => self.fire_once(id, room),
            ScheduleTrigger::Periodic { interval, .. } => self.fire_on_grid(id, interval, now, room),
        }
    }
}

/// Every moment that has passed is accounted for: what a pass hands on and what
/// it adds to the missed count are together as many as the moments that had
/// passed, unless the count has reached its cap or the grid runs off the end of
/// time.
pub proof fn law_no_firing_is_lost(
    task: TaskEntry,
    id: u64,
    interval: Duration,
    now: UtcInstant,
    room: nat,
    after: TaskEntry,
    out: Seq<TriggerPayload>,
)
    requires
        task.fires_on_grid(id, interval, now, room, after, out),
        forall|k: int|
            0 <= k < due_points(task.next_fire_at->0, now, interval) ==> #[trigger] task.on_grid(
                interval,
                k,
            ),
        after.missed_fires < u64::MAX,
    ensures
        out.len() + after.missed_fires == due_points(task.next_fire_at->0, now, interval) + if out.len()
            == 0 {
            task.missed_fires as int
        } else {
            0
        },
{
}

/// A one-shot task that is due is handed on or counted as missed, and is then
/// done either way.
pub proof fn law_one_shot_fires_once(
    task: TaskEntry,
    id: u64,
    now: UtcInstant,
    room: nat,
    after: TaskEntry,
    out: Seq<TriggerPayload>,
)
    requires
        task.trigger is OneShot,
        task.is_due(now),
        task.fires(id, now, room, after, out),
        after.missed_fires < u64::MAX,
    ensures
        after.state == TaskState::Completed,
        out.len() + after.missed_fires == 1 + if out.len() == 0 {
            task.missed_fires as int
        } else {
            0
        },
{
    reveal(TaskEntry::fires);
}

/// A pass leaves nothing due behind: the next moment of a periodic task lies
/// strictly after the pass, as long as the grid can be told that far.
pub proof fn law_next_firing_is_in_the_future(
    task: TaskEntry,
    id: u64,
    interval: Duration,
    now: UtcInstant,
    room: nat,
    after: TaskEntry,
    out: Seq<TriggerPayload>,
)
    requires
        task.is_due(now),
        task.fires_on_grid(id, interval, now, room, after, out),
        interval.nanos > 0,
        now.wf(),
        due_points(task.next_fire_at->0, now, interval) <= u32::MAX,
        after.next_fire_at is Some,
    ensures
        after.next_fire_at->0.nanos > now.nanos,
{
    let next = task.next_fire_at->0;
    let elapsed = now.nanos - next.nanos;
    let step = interval.nanos as int;
    let due = elapsed / step + 1;
    assert(step * (elapsed / step + 1) > elapsed) by (nonlinear_arith)
        requires
            step > 0,
            elapsed >= 0,
    ;
    assert(due_points(next, now, interval) == due);
    assert(MAX_SPAN_NANOS > MAX_INSTANT_NANOS);
}

/// Firings are numbered upwards, without a number used twice: what a pass hands
/// on carries consecutive numbers from the task's own, and the next pass starts
/// above them, as long as the numbers have not reached their cap.
pub proof fn law_firings_are_numbered_upwards(
    task: TaskEntry,
    id: u64,
    now: UtcInstant,
    room: nat,
    after: TaskEntry,
    out: Seq<TriggerPayload>,
)
    requires
        task.fires(id, now, room, after, out),
        after.sequence < u64::MAX,
    ensures
        forall|k: int|
            0 <= k < out.len() ==> (#[trigger] out[k]).sequence == task.sequence + k && out[k].sequence
                < after.sequence,
{
    reveal(TaskEntry::fires);
}

/// A task that was cancelled, or has completed, never fires again.
pub proof fn law_finished_task_never_fires(
    task: TaskEntry,
    id: u64,
    now: UtcInstant,
    room: nat,
    after: TaskEntry,
    out: Seq<TriggerPayload>,
)
    requires
        task.state != TaskState::Scheduled,
        task.fires(id, now, room, after, out),
    ensures
        after == task,
        out.len() == 0,
{
    reveal(TaskEntry::fires);
}

/// What fires carries the number of its task.
pub proof fn law_firings_name_their_task(
    task: TaskEntry,
    id: u64,
    now: UtcInstant,
    room: nat,
    after: TaskEntry,
    out: Seq<TriggerPayload>,
)
    requires
        task.fires(id, now, room, after, out),
    ensures
        forall|k: int| 0 <= k < out.len() ==> (#[trigger] out[k]).task == id,
{
    reveal(TaskEntry::fires);
}

/// Law: the moments that have passed are counted exactly. The last one counted has
/// come by `now`, and the one after it has not, as long as the count fits.
pub proof fn law_due_points_are_counted(next: UtcInstant, now: UtcInstant, interval: Duration)
    requires
        interval.nanos > 0,
        next.nanos <= now.nanos,
    ensures
        due_points(next, now, interval) >= 1,
        next.nanos + (due_points(next, now, interval) - 1) * interval.nanos <= now.nanos,
        due_points(next, now, interval) < u64::MAX ==> now.nanos < next.nanos + due_points(
            next,
            now,
            interval,
        ) * interval.nanos,
{
    let elapsed = now.nanos - next.nanos;
    let step = interval.nanos as int;
    let due = due_points(next, now, interval);
    let whole = elapsed / step;
    assert(step * whole <= elapsed < step * (whole + 1) && whole >= 0) by (nonlinear_arith)
        requires
            step > 0,
            elapsed >= 0,
            whole == elapsed / step,
    ;
    assert((due - 1) * step <= whole * step) by (nonlinear_arith)
        requires
            due - 1 <= whole,
            step > 0,
    ;
    assert(whole * step == step * whole) by (nonlinear_arith);
    assert((whole + 1) * step == step * (whole + 1)) by (nonlinear_arith);
}

/// Law: the `k`-th moment of a grid lies `k` intervals after the first, as long as
/// that can be told.
pub proof fn law_grid_is_even(interval: Duration, k: int)
    requires
        0 <= k <= u32::MAX,
        k * interval.nanos <= MAX_SPAN_NANOS,
    ensures
        offset_of(interval, k) == k * interval.nanos,
{
    assert(interval.nanos * k == k * interval.nanos) by (nonlinear_arith);
}

/// Law: the number of moments that have passed is the one whose last moment has come
/// by `now` and whose next has not.
pub proof fn law_passed_moments_are_unique(next: UtcInstant, now: UtcInstant, interval: Duration, passed: int)
    requires
        1 <= passed < u64::MAX,
        next.nanos + (passed - 1) * interval.nanos <= now.nanos < next.nanos + passed * interval.nanos,
    ensures
        interval.nanos > 0,
        next.nanos <= now.nanos,
        due_points(next, now, interval) == passed,
{
    let step = interval.nanos as int;
    let elapsed = now.nanos - next.nanos;
    assert(passed * step == (passed - 1) * step + step) by (nonlinear_arith);
    assert((passed - 1) * step >= 0) by (nonlinear_arith)
        requires
            passed >= 1,
            step >= 0,
    ;
    assert(elapsed / step == passed - 1) by (nonlinear_arith)
        requires
            step > 0,
            (passed - 1) * step <= elapsed < (passed - 1) * step + step,
    ;
}

/// Law: a pass over a periodic task whose next moment is `next`, of which `passed`
/// moments have come by `now`, hands on as many as there is room for, in order and
/// each at its own moment of the grid, one interval after the one before. The first
/// tells of what was missed before, the numbers go up one by one, what found no room
/// is missed, and the task goes on at the first moment that has not passed.
pub proof fn law_periodic_task_fires_on_its_grid(
    task: TaskEntry,
    id: u64,
    next: UtcInstant,
    interval: Duration,
    now: UtcInstant,
    passed: int,
    room: nat,
    after: TaskEntry,
    out: Seq<TriggerPayload>,
)
    requires
        task.trigger matches ScheduleTrigger::Periodic { next_fire_at, interval: i } && i == interval,
        task.state == TaskState::Scheduled,
        task.next_fire_at == Some(next),
        now.wf(),
        1 <= passed <= u32::MAX,
        next.nanos + (passed - 1) * interval.nanos <= now.nanos < next.nanos + passed * interval.nanos,
        task.sequence + passed < u64::MAX,
        task.missed_fires + passed < u64::MAX,
        task.fires(id, now, room, after, out),
    ensures
        out.len() == if room < passed {
            room as int
        } else {
            passed
        },
        forall|k: int|
            0 <= k < out.len() ==> {
                &&& (#[trigger] out[k]).task == id
                &&& out[k].sequence == task.sequence + k
                &&& out[k].scheduled_at.nanos == next.nanos + k * interval.nanos
                &&& out[k].scheduled_at.nanos <= now.nanos
                &&& out[k].missed_fires == if k == 0 {
                    task.missed_fires
                } else {
                    0
                }
            },
        after.trigger == task.trigger,
        after.sequence == task.sequence + passed,
        after.missed_fires == passed - out.len() + if out.len() == 0 {
            task.missed_fires as int
        } else {
            0
        },
        if next.nanos + passed * interval.nanos <= MAX_INSTANT_NANOS {
            &&& after.state == TaskState::Scheduled
            &&& after.next_fire_at matches Some(later)
            &&& later.nanos == next.nanos + passed * interval.nanos
        } else {
            &&& after.state == TaskState::Completed
            &&& after.next_fire_at is None
        },
{
    reveal(TaskEntry::fires);
    law_passed_moments_are_unique(next, now, interval, passed);
    assert(MAX_SPAN_NANOS > MAX_INSTANT_NANOS);
    let step = interval.nanos as int;
    assert forall|k: int| 0 <= k < passed implies #[trigger] task.on_grid(interval, k) && offset_of(interval, k)
        == k * step && next.nanos + k * step <= now.nanos by {
        assert(k * step <= (passed - 1) * step) by (nonlinear_arith)
            requires
                k <= passed - 1,
                step > 0,
        ;
        law_grid_is_even(interval, k);
    }
    if out.len() < passed {
        assert(task.on_grid(interval, out.len() as int));
    }
    assert forall|k: int| 0 <= k < out.len() implies (#[trigger] out[k]).scheduled_at.nanos == next.nanos + k
        * step && out[k].scheduled_at.nanos <= now.nanos by {
        assert(task.on_grid(interval, k));
        assert(k * step >= 0) by (nonlinear_arith)
            requires
                k >= 0,
                step > 0,
        ;
    }
    assert(passed * step >= 0) by (nonlinear_arith)
        requires
            passed >= 1,
            step > 0,
    ;
    assert(interval.nanos * passed == passed * interval.nanos) by (nonlinear_arith);
    if passed * step <= MAX_SPAN_NANOS {
        law_grid_is_even(interval, passed);
    }
}

/// Law: the moments that one pass hands on are exactly one interval apart.
pub proof fn law_firings_are_one_interval_apart(
    task: TaskEntry,
    id: u64,
    next: UtcInstant,
    interval: Duration,
    now: UtcInstant,
    room: nat,
    after: TaskEntry,
    out: Seq<TriggerPayload>,
    k: int,
)
    requires
        task.trigger matches ScheduleTrigger::Periodic { next_fire_at, interval: i } && i == interval,
        interval.nanos > 0,
        task.state == TaskState::Scheduled,
        task.next_fire_at == Some(next),
        next.nanos <= now.nanos,
        now.wf(),
        task.fires(id, now, room, after, out),
        0 <= k < k + 1 < out.len(),
        k + 1 <= u32::MAX,
    ensures
        out[0].scheduled_at == next,
        out[k + 1].scheduled_at.nanos - out[k].scheduled_at.nanos == interval.nanos,
        out[k + 1].scheduled_at.nanos <= now.nanos,
{
    reveal(TaskEntry::fires);
    law_due_points_are_counted(next, now, interval);
    let due = due_points(next, now, interval);
    let step = interval.nanos as int;
    assert(MAX_SPAN_NANOS > MAX_INSTANT_NANOS);
    assert((k + 1) * step <= (due - 1) * step) by (nonlinear_arith)
        requires
            k + 1 <= due - 1,
            step > 0,
    ;
    assert((k + 1) * step == k * step + step && k * step >= 0) by (nonlinear_arith)
        requires
            k >= 0,
            step > 0,
    ;
    law_grid_is_even(interval, k);
    law_grid_is_even(interval, k + 1);
    law_grid_is_even(interval, 0);
    assert(out[k] == task.payload_at(id, interval, k));
    assert(out[k + 1] == task.payload_at(id, interval, k + 1));
    assert(out[0] == task.payload_at(id, interval, 0));
}

/// Law: a one-shot task whose moment has come is handed on where there is room,
/// with what was missed before, and is missed where there is none; it is then done.
pub proof fn law_one_shot_task_fires_at_its_moment(
    task: TaskEntry,
    id: u64,
    at: UtcInstant,
    now: UtcInstant,
    room: nat,
    after: TaskEntry,
    out: Seq<TriggerPayload>,
)
    requires
        task.trigger is OneShot,
        task.state == TaskState::Scheduled,
        task.next_fire_at == Some(at),
        at.nanos <= now.nanos,
        task.sequence < u64::MAX,
        task.missed_fires < u64::MAX,
        task.fires(id, now, room, after, out),
    ensures
        if room > 0 {
            &&& out.len() == 1
            &&& out[0].task == id
            &&& out[0].sequence == task.sequence
            &&& out[0].scheduled_at == at
            &&& out[0].missed_fires == task.missed_fires
            &&& after.missed_fires == 0
        } else {
            &&& out.len() == 0
            &&& after.missed_fires == task.missed_fires + 1
        },
        after.trigger == task.trigger,
        after.sequence == task.sequence + 1,
        after.state == TaskState::Completed,
        after.next_fire_at is None,
{
    reveal(TaskEntry::fires);
}

/// Law: nothing fires before its moment, and a task that has no moment left does not
/// fire; such a pass leaves the task as it was.
pub proof fn law_nothing_fires_before_its_moment(
    task: TaskEntry,
    id: u64,
    now: UtcInstant,
    room: nat,
    after: TaskEntry,
    out: Seq<TriggerPayload>,
)
    requires
        task.next_fire_at matches Some(next) ==> now.nanos < next.nanos,
        task.fires(id, now, room, after, out),
    ensures
        after == task,
        out.len() == 0,
{
    reveal(TaskEntry::fires);
}

/// Law: a task that was only registered fires first at the moment its trigger names,
/// as number one, and has missed nothing.
pub proof fn law_fresh_task_waits_for_its_first_moment(trigger: ScheduleTrigger)
    ensures
        TaskEntry::fresh(trigger).trigger == trigger,
        TaskEntry::fresh(trigger).state == TaskState::Scheduled,
        TaskEntry::fresh(trigger).sequence == 1,
        TaskEntry::fresh(trigger).missed_fires == 0,
        match trigger {
            ScheduleTrigger::OneShot { at } => TaskEntry::fresh(trigger).next_fire_at == Some(at),
            ScheduleTrigger::Periodic { next_fire_at, interval } => TaskEntry::fresh(trigger).next_fire_at
                == Some(next_fire_at),
        },
{
}

/// Law: a sum that fits is the sum, and one that does not is the largest number.
pub proof fn law_sums_are_capped(a: u64, b: u64)
    ensures
        a + b <= u64::MAX ==> capped_sum(a as int, b as int) == a + b,
        a + b > u64::MAX ==> capped_sum(a as int, b as int) == u64::MAX,
{
}

/// Law: where the grid has no step, or its next moment is still to come, one moment
/// counts.
pub proof fn law_one_moment_counts_without_a_grid(next: UtcInstant, now: UtcInstant, interval: Duration)
    requires
        interval.nanos == 0 || now.nanos < next.nanos,
    ensures
        due_points(next, now, interval) == 1,
{
}

} // verus!
