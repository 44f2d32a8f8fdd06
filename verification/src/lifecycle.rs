//! How an installation leaves service: it is drained, its state is written, and
//! it is stopped.
//!
//! An installation is ready, then drains, then is disabled; no other way leads
//! from one to the next. What must be kept in the audit log is kept before
//! anything changes.
use vstd::prelude::*;

use crate::audit::AuditEvent;
use crate::error::RuntimeExecutionError;
use crate::event::EventService;
use crate::ports::{AuditError, CheckpointError};
use crate::scheduler::SchedulerService;
use crate::table::Table;
use crate::values::{
    ComponentLifecycleEvent, ComponentLifecycleState, ContentDigest, Duration, InstallationId,
};

verus! {

/// Why an installation could not be taken a step further.
#[derive(Debug, PartialEq, Eq)]
pub enum LifecycleError {
    NotFound(InstallationId),
    NotReady(InstallationId, &'static str),
    /// The step does not lead on from where the installation stands.
    InvalidTransition(ComponentLifecycleState, ComponentLifecycleEvent),
    Drain(RuntimeExecutionError),
    Checkpoint(CheckpointError),
    Audit(AuditError),
    Internal(&'static str),
}

/// Where an installation stands, and what bytes it runs.
#[derive(Debug, Clone, Copy, PartialEq, Eq, Structural)]
pub struct InstallationState {
    pub phase: ComponentLifecycleState,
    pub digest: ContentDigest,
}

/// Where a step of leaving service leads.
pub open spec fn leads_to(phase: ComponentLifecycleState, event: ComponentLifecycleEvent) -> Option<
    ComponentLifecycleState,
> {
    match (phase, event) {
        (ComponentLifecycleState::Active, ComponentLifecycleEvent::DrainStarted) => Some(
            ComponentLifecycleState::Draining,
        ),
        (ComponentLifecycleState::Draining, ComponentLifecycleEvent::DrainCompleted) => Some(
            ComponentLifecycleState::Disabled,
        ),
        _ => None,
    }
}

fn transition(phase: ComponentLifecycleState, event: ComponentLifecycleEvent) -> (r: Result<
    ComponentLifecycleState,
    LifecycleError,
>)
    ensures
        r == match leads_to(phase, event) {
            Some(next) => Ok::<ComponentLifecycleState, LifecycleError>(next),
            None => Err(LifecycleError::InvalidTransition(phase, event)),
        },
{
    match (phase, event) {
        (ComponentLifecycleState::Active, ComponentLifecycleEvent::DrainStarted) => Ok(
            ComponentLifecycleState::Draining,
        ),
        (ComponentLifecycleState::Draining, ComponentLifecycleEvent::DrainCompleted) => Ok(
            ComponentLifecycleState::Disabled,
        ),
        _ => Err(LifecycleError::InvalidTransition(phase, event)),
    }
}

/// Takes installations out of service.
#[derive(Debug)]
pub struct LifecycleController {
    states: Table<InstallationState>,
    drain_deadline: Duration,
}

impl LifecycleController {
    /// Where an installation stands, as far as it is known here.
    pub closed spec fn state(&self, installation: InstallationId) -> Option<InstallationState> {
        if self.states@.dom().contains(installation.value) {
            Some(self.states@[installation.value])
        } else {
            None
        }
    }

    pub closed spec fn deadline(&self) -> Duration {
        self.drain_deadline
    }

    pub closed spec fn wf(&self) -> bool {
        self.states.wf() && self.drain_deadline.wf()
    }

    /// Only one installation's state differs.
    pub open spec fn same_but_for(&self, other: &LifecycleController, installation: InstallationId) -> bool {
        &&& self.deadline() == other.deadline()
        &&& forall|x: InstallationId|
            x != installation ==> #[trigger] self.state(x) == other.state(x)
    }

    pub fn new(drain_deadline: Duration) -> (r: LifecycleController)
        requires
            drain_deadline.wf(),
        ensures
            r.wf(),
            r.deadline() == drain_deadline,
            forall|x: InstallationId| #[trigger] r.state(x) is None,
    {
        LifecycleController { states: Table::new(), drain_deadline }
    }

    /// Takes note that an installation is in service. `active` is what it runs,
    /// if it is in service.
    pub fn ready(&mut self, installation: InstallationId, active: Option<ContentDigest>) -> (r: Result<
        (),
        LifecycleError,
    >)
        requires
            old(self).wf(),
        ensures
            final(self).wf(),
            final(self).same_but_for(old(self), installation),
            match (active, old(self).state(installation)) {
                (None, _) => {
                    &&& r == Err::<(), LifecycleError>(LifecycleError::NotFound(installation))
                    &&& final(self).state(installation) == old(self).state(installation)
                },
                (Some(_), Some(state)) => {
                    &&& r == if state.phase == ComponentLifecycleState::Active {
                        Ok::<(), LifecycleError>(())
                    } else {
                        Err(LifecycleError::NotReady(installation, "ready"))
                    }
                    &&& final(self).state(installation) == Some(state)
                },
                (Some(digest), None) => {
                    &&& r == Ok::<(), LifecycleError>(())
                    &&& final(self).state(installation) == Some(
                        InstallationState { phase: ComponentLifecycleState::Active, digest },
                    )
                },
            },
    {
        let digest: ContentDigest = match active {
            Some(digest) => digest,
            None => return Err(LifecycleError::NotFound(installation)),
        };
        match self.states.get(installation.value) {
            Some(state) => {
                return match state.phase {
                    ComponentLifecycleState::Active => Ok(()),
                    _ => Err(LifecycleError::NotReady(installation, "ready")),
                };
            },
            None => {},
        }
        self.states.insert(
            installation.value,
            InstallationState { phase: ComponentLifecycleState::Active, digest },
        );
        Ok(())
    }

    /// Where an installation stands.
    pub fn phase(&self, installation: InstallationId) -> (r: Option<ComponentLifecycleState>)
        requires
            self.wf(),
        ensures
            r == match self.state(installation) {
                Some(state) => Some(state.phase),
                None => None,
            },
    {
        match self.states.get(installation.value) {
            Some(state) => Some(state.phase),
            None => None,
        }
    }

    /// The state that an installation is drained from: what is known of it, or
    /// else that it is in service.
    pub open spec fn drained_from(&self, installation: InstallationId, active: Option<ContentDigest>) -> Option<
        InstallationState,
    > {
        match (self.state(installation), active) {
            (Some(state), _) => Some(state),
            (None, Some(digest)) => Some(
                InstallationState { phase: ComponentLifecycleState::Active, digest },
            ),
            (None, None) => None,
        }
    }

    /// Begins to drain an installation: makes the audit event that must be kept
    /// first. `active` is what it runs, if it is in service.
    pub fn begin_drain(&mut self, installation: InstallationId, active: Option<ContentDigest>) -> (r: Result<
        AuditEvent,
        LifecycleError,
    >)
        requires
            old(self).wf(),
        ensures
            final(self).wf(),
            final(self).same_but_for(old(self), installation),
            final(self).state(installation) == old(self).drained_from(installation, active),
            r == match old(self).drained_from(installation, active) {
                None => Err::<AuditEvent, LifecycleError>(LifecycleError::NotFound(installation)),
                Some(state) => Ok(
                    AuditEvent::DrainStarted {
                        installation,
                        digest: state.digest,
                        deadline_secs: (old(self).deadline().nanos / 1_000_000_000) as u64,
                    },
                ),
            },
    {
        let state: InstallationState = match self.states.get(installation.value) {
            Some(state) => *state,
            None => {
                let digest: ContentDigest = match active {
                    Some(digest) => digest,
                    None => return Err(LifecycleError::NotFound(installation)),
                };
                let state = InstallationState { phase: ComponentLifecycleState::Active, digest };
                self.states.insert(installation.value, state);
                state
            },
        };
        Ok(
            AuditEvent::DrainStarted {
                installation,
                digest: state.digest,
                deadline_secs: self.drain_deadline.as_secs(),
            },
        )
    }

    fn take_step(&mut self, installation: InstallationId, event: ComponentLifecycleEvent) -> (r: Result<
        (),
        LifecycleError,
    >)
        requires
            old(self).wf(),
        ensures
            final(self).wf(),
            final(self).same_but_for(old(self), installation),
            step_taken(old(self).state(installation), event, final(self).state(installation), r),
    {
        let mut state: InstallationState = match self.states.get(installation.value) {
            Some(state) => *state,
            None => return Err(LifecycleError::Internal("lifecycle state vanished between checks")),
        };
        match transition(state.phase, event) {
            Ok(next) => {
                state.phase = next;
                self.states.insert(installation.value, state);
                Ok(())
            },
            Err(error) => Err(error),
        }
    }

    /// Goes on draining, once the audit log was asked to keep the event: nothing
    /// new is taken up. The host then drains what is running and hands the result
    /// to [`LifecycleController::drained`].
    pub fn drain_audited(
        &mut self,
        installation: InstallationId,
        audited: Result<(), AuditError>,
        scheduler: &mut SchedulerService,
        events: &mut EventService,
    ) -> (r: Result<(), LifecycleError>)
        requires
            old(self).wf(),
            old(scheduler).wf(),
            old(events).wf(),
        ensures
            final(self).wf(),
            final(scheduler).wf(),
            final(events).wf(),
            final(self).same_but_for(old(self), installation),
            match audited {
                Err(e) => {
                    &&& r == Err::<(), LifecycleError>(LifecycleError::Audit(e))
                    &&& final(self).state(installation) == old(self).state(installation)
                },
                Ok(_) => step_taken(
                    old(self).state(installation),
                    ComponentLifecycleEvent::DrainStarted,
                    final(self).state(installation),
                    r,
                ),
            },
            r is Ok ==> final(scheduler).stopped(installation) && final(events).stopped(installation),
            r is Err ==> *final(scheduler) == *old(scheduler) && *final(events) == *old(events),
            forall|x: InstallationId| #[trigger] final(scheduler).tasks(x) == old(scheduler).tasks(x),
            forall|x: InstallationId|
                x != installation ==> #[trigger] final(scheduler).stopped(x) == old(scheduler).stopped(x),
            final(scheduler).limits() == old(scheduler).limits(),
            final(scheduler).next_id() == old(scheduler).next_id(),
            final(events).limits() == old(events).limits(),
            final(events).next_id() == old(events).next_id(),
            final(events).dropped(installation) == old(events).dropped(installation),
            final(events).same_but_for(old(events), installation),
    {
        match audited {
            Ok(_) => {},
            Err(e) => return Err(LifecycleError::Audit(e)),
        }
        match self.take_step(installation, ComponentLifecycleEvent::DrainStarted) {
            Ok(_) => {},
            Err(error) => return Err(error),
        }
        scheduler.stop(installation);
        events.stop(installation);
        Ok(())
    }

    /// Ends a drain. `active` tells whether the installation was still found in
    /// service, and `drained` how what was running ended.
    pub fn drained(
        &self,
        installation: InstallationId,
        active: Option<ContentDigest>,
        drained: Result<(), RuntimeExecutionError>,
    ) -> (r: Result<(), LifecycleError>)
        ensures
            r == match (active, drained) {
                (None, _) => Err::<(), LifecycleError>(LifecycleError::NotFound(installation)),
                (Some(_), Ok(_)) => Ok(()),
                (Some(_), Err(e)) => Err(LifecycleError::Drain(e)),
            },
    {
        match active {
            None => Err(LifecycleError::NotFound(installation)),
            Some(_) => match drained {
                Ok(_) => Ok(()),
                Err(e) => Err(LifecycleError::Drain(e)),
            },
        }
    }

    /// Begins to stop an installation: makes the audit event that must be kept
    /// first.
    pub fn stop(&self, installation: InstallationId) -> (r: Result<AuditEvent, LifecycleError>)
        requires
            self.wf(),
        ensures
            r == match self.state(installation) {
                None => Err::<AuditEvent, LifecycleError>(LifecycleError::NotFound(installation)),
                Some(state) => Ok(AuditEvent::DrainCompleted { installation, digest: state.digest }),
            },
    {
        match self.states.get(installation.value) {
            None => Err(LifecycleError::NotFound(installation)),
            Some(state) => Ok(AuditEvent::DrainCompleted { installation, digest: state.digest }),
        }
    }

    /// Stops an installation, once the audit log was asked to keep the event.
    pub fn stop_audited(&mut self, installation: InstallationId, audited: Result<(), AuditError>) -> (r: Result<
        (),
        LifecycleError,
    >)
        requires
            old(self).wf(),
        ensures
            final(self).wf(),
            final(self).same_but_for(old(self), installation),
            match audited {
                Err(e) => {
                    &&& r == Err::<(), LifecycleError>(LifecycleError::Audit(e))
                    &&& final(self).state(installation) == old(self).state(installation)
                },
                Ok(_) => step_taken(
                    old(self).state(installation),
                    ComponentLifecycleEvent::DrainCompleted,
                    final(self).state(installation),
                    r,
                ),
            },
    {
        match audited {
            Ok(_) => {},
            Err(e) => return Err(LifecycleError::Audit(e)),
        }
        self.take_step(installation, ComponentLifecycleEvent::DrainCompleted)
    }

    /// Answers a checkpoint, from what came of it.
    pub fn checkpoint(&self, written: Result<(), CheckpointError>) -> (r: Result<(), LifecycleError>)
        ensures
            r == match written {
                Ok(_) => Ok::<(), LifecycleError>(()),
                Err(e) => Err(LifecycleError::Checkpoint(e)),
            },
    {
        match written {
            Ok(_) => Ok(()),
            Err(e) => Err(LifecycleError::Checkpoint(e)),
        }
    }
}

/// What a step does: where it leads on it is taken, and where it does not,
/// nothing changes.
pub open spec fn step_taken(
    before: Option<InstallationState>,
    event: ComponentLifecycleEvent,
    after: Option<InstallationState>,
    r: Result<(), LifecycleError>,
) -> bool {
    match before {
        None => {
            &&& after is None
            &&& r == Err::<(), LifecycleError>(
                LifecycleError::Internal("lifecycle state vanished between checks"),
            )
        },
        Some(state) => match leads_to(state.phase, event) {
            Some(next) => {
                &&& after == Some(InstallationState { phase: next, ..state })
                &&& r == Ok::<(), LifecycleError>(())
            },
            None => {
                &&& after == before
                &&& r == Err::<(), LifecycleError>(LifecycleError::InvalidTransition(state.phase, event))
            },
        },
    }
}

/// An installation is disabled only after it was drained: stopping is refused
/// wherever draining did not come before.
pub proof fn law_stop_needs_drain(before: InstallationState, after: Option<InstallationState>, r: Result<
    (),
    LifecycleError,
>)
    requires
        step_taken(Some(before), ComponentLifecycleEvent::DrainCompleted, after, r),
    ensures
        r is Ok <==> before.phase == ComponentLifecycleState::Draining,
        r is Ok ==> after == Some(
            InstallationState { phase: ComponentLifecycleState::Disabled, ..before },
        ),
{
}

/// Draining happens once: an installation that drains, or is disabled, is not
/// drained again.
pub proof fn law_drain_happens_once(
    before: InstallationState,
    drained: Option<InstallationState>,
    first: Result<(), LifecycleError>,
    after: Option<InstallationState>,
    second: Result<(), LifecycleError>,
)
    requires
        step_taken(Some(before), ComponentLifecycleEvent::DrainStarted, drained, first),
        first is Ok,
        step_taken(drained, ComponentLifecycleEvent::DrainStarted, after, second),
    ensures
        second is Err,
        after == drained,
{
}

/// The bytes that an installation is drained with are those it is stopped with,
/// whatever is put in service meanwhile.
pub proof fn law_steps_keep_the_digest(
    before: InstallationState,
    event: ComponentLifecycleEvent,
    after: Option<InstallationState>,
    r: Result<(), LifecycleError>,
)
    requires
        step_taken(Some(before), event, after, r),
    ensures
        after is Some,
        after->0.digest == before.digest,
{
}

/// Law: what is in service starts to drain and then drains, what drains becomes
/// disabled once it has drained, and nothing else leads on.
pub proof fn law_leaving_service_has_two_steps(phase: ComponentLifecycleState, event: ComponentLifecycleEvent)
    ensures
        leads_to(phase, event) == Some(ComponentLifecycleState::Draining) <==> phase
            == ComponentLifecycleState::Active && event == ComponentLifecycleEvent::DrainStarted,
        leads_to(phase, event) == Some(ComponentLifecycleState::Disabled) <==> phase
            == ComponentLifecycleState::Draining && event == ComponentLifecycleEvent::DrainCompleted,
        leads_to(phase, event) matches Some(next) ==> next == ComponentLifecycleState::Draining || next
            == ComponentLifecycleState::Disabled,
{
}

/// Law: an installation in service starts to drain exactly where it is in service;
/// a step that does not lead on changes nothing and tells the phase and the event.
pub proof fn law_step_is_taken_where_it_leads_on(
    before: InstallationState,
    event: ComponentLifecycleEvent,
    after: Option<InstallationState>,
    r: Result<(), LifecycleError>,
)
    requires
        step_taken(Some(before), event, after, r),
    ensures
        event == ComponentLifecycleEvent::DrainStarted ==> (r is Ok <==> before.phase
            == ComponentLifecycleState::Active),
        event == ComponentLifecycleEvent::DrainStarted && r is Ok ==> after == Some(
            InstallationState { phase: ComponentLifecycleState::Draining, digest: before.digest },
        ),
        event != ComponentLifecycleEvent::DrainStarted && event != ComponentLifecycleEvent::DrainCompleted
            ==> r is Err,
        r matches Err(e) ==> after == Some(before) && e == LifecycleError::InvalidTransition(before.phase, event),
{
}

/// Law: an installation is drained from what is known of it; where nothing is, from
/// being in service with the digest in service, and where none is, not at all.
pub proof fn law_drain_starts_from_what_is_known(
    controller: LifecycleController,
    installation: InstallationId,
    active: Option<ContentDigest>,
)
    ensures
        controller.state(installation) is Some ==> controller.drained_from(installation, active)
            == controller.state(installation),
        controller.state(installation) is None && active is None ==> controller.drained_from(installation, active)
            is None,
        active matches Some(digest) ==> controller.state(installation) is None ==> controller.drained_from(
            installation,
            active,
        ) == Some(InstallationState { phase: ComponentLifecycleState::Active, digest }),
{
}

/// Law: a step of an installation that is not known is refused, and it stays
/// unknown.
pub proof fn law_step_of_an_unknown_installation(
    event: ComponentLifecycleEvent,
    after: Option<InstallationState>,
    r: Result<(), LifecycleError>,
)
    requires
        step_taken(None, event, after, r),
    ensures
        after is None,
        r == Err::<(), LifecycleError>(LifecycleError::Internal("lifecycle state vanished between checks")),
{
}

/// Law: what is done to one installation leaves the deadline and every other
/// installation as they were.
pub proof fn law_other_installations_stay(
    controller: LifecycleController,
    other: LifecycleController,
    installation: InstallationId,
    x: InstallationId,
)
    requires
        controller.same_but_for(&other, installation),
        x != installation,
    ensures
        controller.deadline() == other.deadline(),
        controller.state(x) == other.state(x),
{
}

} // verus!
