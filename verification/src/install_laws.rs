//! What holds of every run of the pipeline, whatever its work comes to.
use vstd::prelude::*;

use crate::audit::AuditEvent;
use crate::error::ApplicationError;
use crate::guest::GuestComponentDescriptor;
use crate::install;
use crate::install::{Facts, InstallRun, PipelineResult, Reply, Stage};
use crate::install_work::Action;
use crate::model::{GrantApproval, InstallationRecord, PipelineTarget};
use crate::ports::AuditError;
use crate::values::{
    ComponentLifecycleEvent, ComponentLifecycleState, ComponentVersion, ContentDigest, InstallationId,
};

verus! {

/// The states of a run and the replies that led from each to the next.
pub open spec fn is_run(states: Seq<InstallRun>, replies: Seq<Reply>) -> bool {
    &&& states.len() == replies.len() + 1
    &&& states[0].wf()
    &&& states[0].stage == Stage::Compile
    &&& forall|i: int|
        0 <= i < replies.len() ==> {
            &&& (#[trigger] replies[i]).fits(states[i].stage)
            &&& states[i].step(replies[i], states[i + 1])
            &&& states[i + 1].wf()
        }
}

/// A stage that a run with these facts cannot leave out on its way.
pub open spec fn mandatory(f: Facts, t: Stage) -> bool {
    match t {
        Stage::AllocateInstallation | Stage::InsertInstallation => f.is_install(),
        Stage::LoadGrants => f.approval is ReuseExisting,
        Stage::RecordGrants | Stage::StoreGrants => f.approval is Explicit,
        Stage::CacheAsset => false,
        Stage::FindPrevious | Stage::LoadDraining | Stage::MarkDraining | Stage::RecordDrain | Stage::Drain
        | Stage::RecordDrained | Stage::LoadDisabled | Stage::MarkDisabled => !f.is_install(),
        _ => install::is_main(t),
    }
}

/// Where service begins: at once for an install, with the version before for an
/// upgrade or a rollback.
pub open spec fn service_stage(f: Facts) -> Stage {
    if f.is_install() {
        Stage::RecordSuccess
    } else {
        Stage::FindPrevious
    }
}

/// The stages on the way to service to which a stage can lead.
pub open spec fn leads_to(f: Facts, s: Stage, next: Stage) -> bool {
    match s {
        Stage::Compile => next == Stage::ReadSurface,
        Stage::ReadSurface => next == Stage::RecordCandidate,
        Stage::RecordCandidate => next == Stage::PersistArtifact,
        Stage::PersistArtifact => next == Stage::UpsertCandidate,
        Stage::UpsertCandidate => next == Stage::FirstDescriptor,
        Stage::FirstDescriptor => next == Stage::SecondDescriptor,
        Stage::SecondDescriptor => next == Stage::CheckIdentity,
        Stage::CheckIdentity => next == Stage::ResolveVersion,
        Stage::ResolveVersion => next == if f.is_install() {
            Stage::AllocateInstallation
        } else {
            Stage::RecordIdentity
        },
        Stage::AllocateInstallation => next == Stage::RecordIdentity,
        Stage::RecordIdentity => next == Stage::BindVersion,
        Stage::BindVersion => next == if f.is_install() {
            Stage::InsertInstallation
        } else {
            Stage::LoadValidated
        },
        Stage::InsertInstallation => next == Stage::LoadValidated,
        Stage::LoadValidated => next == Stage::MarkValidated,
        Stage::MarkValidated => next == if f.approval is Explicit {
            Stage::CheckWasi
        } else {
            Stage::LoadGrants
        },
        Stage::LoadGrants => next == Stage::CheckWasi,
        Stage::CheckWasi => next == Stage::Prepare,
        Stage::Prepare => next == Stage::RecordActivation,
        Stage::RecordActivation => next == Stage::LoadActivating,
        Stage::LoadActivating => next == Stage::MarkActivating,
        Stage::MarkActivating => next == Stage::Instantiate,
        Stage::Instantiate => next == Stage::CheckReadiness,
        Stage::CheckReadiness => next == Stage::ReadManifest,
        Stage::ReadManifest | Stage::CacheAsset => next == Stage::CacheAsset || next
            == if f.approval is Explicit {
            Stage::RecordGrants
        } else {
            service_stage(f)
        },
        Stage::RecordGrants => next == Stage::StoreGrants,
        Stage::StoreGrants => next == service_stage(f),
        Stage::FindPrevious => next == Stage::RecordSuccess,
        Stage::RecordSuccess => next == Stage::RecordManifest,
        Stage::RecordManifest => next == if f.is_install() {
            Stage::UpdateInstallation
        } else {
            Stage::LoadDraining
        },
        Stage::LoadDraining => next == Stage::MarkDraining,
        Stage::MarkDraining => next == Stage::UpdateInstallation,
        Stage::UpdateInstallation => next == Stage::LoadActive,
        Stage::LoadActive => next == Stage::MarkActive,
        Stage::MarkActive => next == Stage::SwapActive,
        Stage::SwapActive => next == Stage::RecordDrain && !f.is_install(),
        Stage::RecordDrain => next == Stage::Drain,
        Stage::Drain => next == Stage::RecordDrained,
        Stage::RecordDrained => next == Stage::LoadDisabled,
        Stage::LoadDisabled => next == Stage::MarkDisabled,
        _ => false,
    }
}

/// A stage at which a candidate is kept and not yet in service.
pub open spec fn holds_candidate(s: Stage) -> bool {
    install::rank(Stage::FirstDescriptor) <= install::rank(s) <= install::rank(Stage::MarkActive)
}

/// The run ended by asking for approval.
pub open spec fn awaits_approval(s: InstallRun) -> bool {
    s.result matches Some(Ok(PipelineResult::RequiresApproval { installation, missing }))
}

/// The outline of a step: what stays, and where it can lead.
pub open spec fn outline(s: InstallRun, reply: Reply, next: InstallRun) -> bool {
    &&& next.facts.config == s.facts.config
    &&& next.facts.approval == s.facts.approval
    &&& next.facts.target == s.facts.target
    &&& next.facts.digest == s.facts.digest
    &&& install::is_main(next.stage) ==> reply.succeeded() && leads_to(s.facts, s.stage, next.stage)
    &&& s.stage == Stage::CacheAsset && next.stage == Stage::CacheAsset ==> {
        &&& next.facts.asset_index == s.facts.asset_index + 1
        &&& next.facts.asset_count() == s.facts.asset_count()
        &&& next.facts.asset_index < next.facts.asset_count()
    }
    &&& !install::is_main(next.stage) ==> install::rank(next.stage) > install::rank(s.stage)
    &&& next.stage == Stage::Fail ==> holds_candidate(s.stage)
    &&& holds_candidate(s.stage) && next.stage == Stage::Finished ==> {
        ||| reply matches Reply::Audited(Err(_))
        ||| next.result matches Some(Ok(_))
    }
    &&& holds_candidate(s.stage) && !reply.succeeded() && !(reply is Audited) ==> next.stage == Stage::Fail
    &&& next.stage == Stage::LoadFailed || next.stage == Stage::MarkFailed ==> !install::is_main(s.stage)
    &&& s.stage == Stage::Fail && reply.succeeded() ==> next.stage == Stage::LoadFailed && next.tail == s.tail
    &&& s.stage == Stage::LoadFailed && reply.succeeded() ==> next.stage == Stage::MarkFailed && next.tail
        == s.tail
    &&& s.stage == Stage::MarkFailed && reply.succeeded() ==> next == s.ended()
    &&& next.stage == Stage::Reject ==> install::rank(s.stage) <= install::rank(Stage::ReadSurface)
    &&& next.stage != Stage::Finished ==> next.result == s.result
    &&& awaits_approval(next) && s.result is None ==> install::rank(s.stage) <= install::rank(
        Stage::LoadGrants,
    )
    &&& s.stage == Stage::SwapActive && s.facts.is_install() ==> {
        &&& next.stage == Stage::Finished
        &&& next.result matches Some(Ok(_))
    }
    &&& reply matches Reply::Audited(Err(e)) ==> {
        &&& next.stage == Stage::Finished
        &&& next.result == Some(Err::<PipelineResult, ApplicationError>(ApplicationError::Audit(e)))
        &&& next.facts == s.facts
    }
}

proof fn lemma_outline_keeps_bytes(s: InstallRun, reply: Reply, next: InstallRun)
    requires
        s.wf(),
        reply.fits(s.stage),
        install::rank(Stage::Compile) <= install::rank(s.stage) <= install::rank(Stage::UpsertCandidate),
        s.keeps_bytes(reply, next),
    ensures
        outline(s, reply, next),
{
    reveal(InstallRun::keeps_bytes);
}

proof fn lemma_outline_establishes_identity(s: InstallRun, reply: Reply, next: InstallRun)
    requires
        s.wf(),
        reply.fits(s.stage),
        install::rank(Stage::FirstDescriptor) <= install::rank(s.stage) <= install::rank(Stage::MarkValidated),
        s.establishes_identity(reply, next),
    ensures
        outline(s, reply, next),
{
    reveal(InstallRun::establishes_identity);
}

proof fn lemma_outline_resolves_grants(s: InstallRun, reply: Reply, next: InstallRun)
    requires
        s.wf(),
        reply.fits(s.stage),
        install::rank(Stage::LoadGrants) <= install::rank(s.stage) <= install::rank(Stage::MarkActivating),
        s.resolves_grants(reply, next),
    ensures
        outline(s, reply, next),
{
    reveal(InstallRun::resolves_grants);
}

proof fn lemma_outline_brings_up(s: InstallRun, reply: Reply, next: InstallRun)
    requires
        s.wf(),
        reply.fits(s.stage),
        install::rank(Stage::Instantiate) <= install::rank(s.stage) <= install::rank(Stage::StoreGrants),
        s.brings_up(reply, next),
    ensures
        outline(s, reply, next),
{
    reveal(InstallRun::brings_up);
    if s.stage == Stage::CacheAsset {
        assert(s.facts.manifest->0.assets.len() <= usize::MAX);
    }
}

proof fn lemma_outline_puts_in_service(s: InstallRun, reply: Reply, next: InstallRun)
    requires
        s.wf(),
        reply.fits(s.stage),
        install::rank(Stage::FindPrevious) <= install::rank(s.stage) <= install::rank(Stage::MarkActive),
        s.puts_in_service(reply, next),
    ensures
        outline(s, reply, next),
{
    reveal(InstallRun::puts_in_service);
}

proof fn lemma_outline_retires_previous(s: InstallRun, reply: Reply, next: InstallRun)
    requires
        s.wf(),
        reply.fits(s.stage),
        install::rank(Stage::SwapActive) <= install::rank(s.stage) <= install::rank(Stage::MarkDisabled),
        s.retires_previous(reply, next),
    ensures
        outline(s, reply, next),
{
    reveal(InstallRun::retires_previous);
}

proof fn lemma_outline_records_failure(s: InstallRun, reply: Reply, next: InstallRun)
    requires
        s.wf(),
        reply.fits(s.stage),
        install::rank(Stage::Reject) <= install::rank(s.stage) <= install::rank(Stage::MarkFailed),
        s.records_failure(reply, next),
    ensures
        outline(s, reply, next),
{
    reveal(InstallRun::records_failure);
}

pub(crate) proof fn lemma_outline(s: InstallRun, reply: Reply, next: InstallRun)
    requires
        s.wf(),
        reply.fits(s.stage),
        s.step(reply, next),
    ensures
        outline(s, reply, next),
{
    let n = install::rank(s.stage);
    if n <= install::rank(Stage::UpsertCandidate) {
        lemma_outline_keeps_bytes(s, reply, next);
    } else if n <= install::rank(Stage::MarkValidated) {
        lemma_outline_establishes_identity(s, reply, next);
    } else if n <= install::rank(Stage::MarkActivating) {
        lemma_outline_resolves_grants(s, reply, next);
    } else if n <= install::rank(Stage::StoreGrants) {
        lemma_outline_brings_up(s, reply, next);
    } else if n <= install::rank(Stage::MarkActive) {
        lemma_outline_puts_in_service(s, reply, next);
    } else if n <= install::rank(Stage::MarkDisabled) {
        lemma_outline_retires_previous(s, reply, next);
    } else {
        lemma_outline_records_failure(s, reply, next);
    }
}

/// Law: what a run is about never changes, and no failure turns back into
/// success.
pub proof fn law_step_keeps_purpose(s: InstallRun, reply: Reply, next: InstallRun)
    requires
        s.wf(),
        reply.fits(s.stage),
        s.step(reply, next),
    ensures
        next.facts.config == s.facts.config,
        next.facts.approval == s.facts.approval,
        next.facts.target == s.facts.target,
        next.facts.digest == s.facts.digest,
        install::is_main(next.stage) ==> install::is_main(s.stage) && reply.succeeded(),
{
    lemma_outline(s, reply, next);
}

pub(crate) proof fn lemma_leads_forward(f: Facts, s: Stage, next: Stage)
    requires
        leads_to(f, s, next),
    ensures
        install::rank(next) > install::rank(s) || (s == Stage::CacheAsset && next == Stage::CacheAsset),
{
}

/// Law: every step moves a run forward, or on to the next asset; so every run
/// comes to an end.
pub proof fn law_step_moves_forward(s: InstallRun, reply: Reply, next: InstallRun)
    requires
        s.wf(),
        reply.fits(s.stage),
        s.step(reply, next),
    ensures
        install::rank(next.stage) > install::rank(s.stage) || (s.stage == Stage::CacheAsset && next.stage
            == Stage::CacheAsset && next.facts.asset_index == s.facts.asset_index + 1
            && next.facts.asset_count() == s.facts.asset_count() && next.facts.asset_index
            < next.facts.asset_count()),
{
    lemma_outline(s, reply, next);
    if install::is_main(next.stage) {
        lemma_leads_forward(s.facts, s.stage, next.stage);
    }
}

proof fn lemma_no_stage_skipped(f: Facts, s: Stage, next: Stage, t: Stage)
    requires
        leads_to(f, s, next),
        mandatory(f, t),
    ensures
        install::rank(t) <= install::rank(s) || install::rank(t) >= install::rank(next),
{
}

/// Law: a run that stands at a stage has done, with success, every mandatory
/// stage before it. In particular no record names the new bytes, no grant is
/// written and nothing is put in service before the candidate has shown that it
/// is ready, and each of these is in the audit log first.
pub proof fn law_stages_in_order(states: Seq<InstallRun>, replies: Seq<Reply>, n: int, t: Stage)
    requires
        is_run(states, replies),
        0 <= n < states.len(),
        install::is_main(states[n].stage),
        mandatory(states[n].facts, t),
        install::rank(t) < install::rank(states[n].stage),
    ensures
        exists|i: int| 0 <= i < n && (#[trigger] states[i]).stage == t && replies[i].succeeded(),
    decreases n,
{
    if n > 0 {
        let s = states[n - 1];
        let reply = replies[n - 1];
        assert(reply.fits(s.stage));
        assert(s.step(reply, states[n]));
        assert(s.wf()) by {
            if n - 1 > 0 {
                let earlier = replies[n - 2];
                assert(states[n - 2 + 1].wf());
            }
        }
        lemma_outline(s, reply, states[n]);
        if s.stage == t {
            assert(states[n - 1].stage == t && replies[n - 1].succeeded());
        } else if install::rank(s.stage) < install::rank(t) {
            lemma_no_stage_skipped(s.facts, s.stage, states[n].stage, t);
        } else {
            if install::rank(s.stage) == install::rank(t) {
                lemma_rank_injective(s.stage, t);
            }
            law_stages_in_order(states, replies, n - 1, t);
        }
    }
}

proof fn lemma_rank_injective(a: Stage, b: Stage)
    requires
        install::rank(a) == install::rank(b),
    ensures
        a == b,
{
}

/// Law: nothing goes into service that was not found ready.
pub proof fn law_service_needs_readiness(states: Seq<InstallRun>, replies: Seq<Reply>, n: int)
    requires
        is_run(states, replies),
        0 <= n < states.len(),
        states[n].stage == Stage::SwapActive || states[n].stage == Stage::UpdateInstallation
            || states[n].stage == Stage::StoreGrants,
    ensures
        exists|i: int|
            0 <= i < n && (#[trigger] states[i]).stage == Stage::CheckReadiness && replies[i].succeeded(),
{
    law_stages_in_order(states, replies, n, Stage::CheckReadiness);
}

/// Law: a run that the audit log cannot follow stops at once, with the log's
/// error.
pub proof fn law_failed_audit_stops(s: InstallRun, e: AuditError, next: InstallRun)
    requires
        s.wf(),
        Reply::Audited(Err(e)).fits(s.stage),
        s.step(Reply::Audited(Err(e)), next),
    ensures
        next.stage == Stage::Finished,
        next.result == Some(Err::<PipelineResult, ApplicationError>(ApplicationError::Audit(e))),
        next.facts == s.facts,
{
    lemma_outline(s, Reply::Audited(Err(e)), next);
}

proof fn lemma_swapped_install_succeeds(states: Seq<InstallRun>, replies: Seq<Reply>, i: int, n: int)
    requires
        is_run(states, replies),
        0 <= i < n < states.len(),
        states[i].stage == Stage::SwapActive,
        states[i].facts.is_install(),
    ensures
        states[n].stage == Stage::Finished,
        states[n].result matches Some(Ok(_)),
    decreases n,
{
    let s = states[n - 1];
    let reply = replies[n - 1];
    assert(reply.fits(s.stage));
    assert(s.step(reply, states[n]));
    lemma_wf(states, replies, n - 1);
    lemma_outline(s, reply, states[n]);
    if i < n - 1 {
        lemma_swapped_install_succeeds(states, replies, i, n - 1);
    }
}

/// Law: an install that fails has put nothing in service.
pub proof fn law_failed_install_changes_no_service(
    states: Seq<InstallRun>,
    replies: Seq<Reply>,
    i: int,
    n: int,
)
    requires
        is_run(states, replies),
        0 <= i < n < states.len(),
        states[n].facts.is_install(),
        states[n].result matches Some(Err(_)),
        states[n].stage == Stage::Finished,
    ensures
        states[i].stage != Stage::SwapActive,
{
    lemma_purpose_kept(states, replies, i, n);
    if states[i].stage == Stage::SwapActive {
        lemma_swapped_install_succeeds(states, replies, i, n);
    }
}

pub(crate) proof fn lemma_purpose_kept(states: Seq<InstallRun>, replies: Seq<Reply>, i: int, n: int)
    requires
        is_run(states, replies),
        0 <= i <= n < states.len(),
    ensures
        states[i].facts.target == states[n].facts.target,
        states[i].facts.approval == states[n].facts.approval,
        states[i].facts.digest == states[n].facts.digest,
    decreases n - i,
{
    if i < n {
        let reply = replies[n - 1];
        assert(reply.fits(states[n - 1].stage));
        lemma_wf(states, replies, n - 1);
        law_step_keeps_purpose(states[n - 1], reply, states[n - 1 + 1]);
        lemma_purpose_kept(states, replies, i, n - 1);
    }
}

pub(crate) proof fn lemma_wf(states: Seq<InstallRun>, replies: Seq<Reply>, n: int)
    requires
        is_run(states, replies),
        0 <= n < states.len(),
    ensures
        states[n].wf(),
{
    if n > 0 {
        let reply = replies[n - 1];
        assert(states[n - 1 + 1].wf());
    }
}

/// Law: an upgrade that waits for approval has written no grant, touched no
/// installation record and put nothing in service.
pub proof fn law_waiting_for_approval_changes_nothing(
    states: Seq<InstallRun>,
    replies: Seq<Reply>,
    i: int,
    n: int,
)
    requires
        is_run(states, replies),
        0 <= i < n < states.len(),
        awaits_approval(states[n]),
        states[n].stage == Stage::Finished,
        states[0].result is None,
    ensures
        install::rank(states[i].stage) <= install::rank(Stage::LoadGrants),
    decreases n - i,
{
    let reply = replies[n - 1];
    assert(reply.fits(states[n - 1].stage));
    assert(states[n - 1].step(reply, states[n - 1 + 1]));
    lemma_wf(states, replies, n - 1);
    lemma_unfinished_has_no_result(states, replies, n - 1);
    lemma_outline(states[n - 1], reply, states[n - 1 + 1]);
    assert(install::rank(states[n - 1].stage) <= install::rank(Stage::LoadGrants));
    lemma_rank_grows(states, replies, i, n - 1);
}

/// Law: a step that fails while a candidate is kept and not yet in service fails
/// the candidate, and so does every other way out of such a step that is not a
/// success. The one exception is a failure of the audit log, which ends the run.
pub proof fn law_failed_step_fails_the_candidate(s: InstallRun, reply: Reply, next: InstallRun)
    requires
        s.wf(),
        reply.fits(s.stage),
        s.step(reply, next),
        holds_candidate(s.stage),
        !(reply matches Reply::Audited(Err(_))),
    ensures
        !reply.succeeded() ==> next.stage == Stage::Fail,
        install::is_main(next.stage) || next.stage == Stage::Fail || (next.stage == Stage::Finished
            && next.result matches Some(Ok(_))),
{
    lemma_outline(s, reply, next);
    if reply is Audited {
        assert(reply.succeeded());
    }
}

/// Law: once a failed candidate is in its failed state, the caller hears why it
/// failed.
pub proof fn law_caller_hears_why_the_candidate_failed(states: Seq<InstallRun>, replies: Seq<Reply>, n: int)
    requires
        is_run(states, replies),
        0 <= n && n + 3 < states.len(),
        states[n].stage == Stage::Fail,
        replies[n].succeeded(),
        replies[n + 1].succeeded(),
        replies[n + 2].succeeded(),
    ensures
        states[n + 2].stage == Stage::MarkFailed,
        states[n + 3].stage == Stage::Finished,
        states[n + 3].result == Some(
            Err::<PipelineResult, ApplicationError>(states[n].tail->0.error),
        ),
{
    assert forall|k: int| n <= k < n + 3 implies outline(states[k], replies[k], #[trigger] states[k + 1]) by {
        assert(replies[k].fits(states[k].stage));
        lemma_wf(states, replies, k);
        lemma_outline(states[k], replies[k], states[k + 1]);
    }
    assert(outline(states[n], replies[n], states[n + 1]));
    assert(outline(states[n + 1], replies[n + 1], states[n + 1 + 1]));
    assert(outline(states[n + 2], replies[n + 2], states[n + 2 + 1]));
}

/// Law: a run that kept a candidate and ends with an error before the candidate is
/// in service has put the candidate in its failed state, unless the audit log
/// failed, or the registry failed to read or write that state.
pub proof fn law_failed_run_quarantines_the_candidate(
    states: Seq<InstallRun>,
    replies: Seq<Reply>,
    i: int,
    n: int,
)
    requires
        is_run(states, replies),
        0 <= i < n < states.len(),
        holds_candidate(states[i].stage),
        forall|j: int| 0 <= j < n ==> (#[trigger] states[j]).stage != Stage::SwapActive,
        states[n].stage == Stage::Finished,
        states[n].result matches Some(Err(_)),
    ensures
        ({
            ||| replies[n - 1] matches Reply::Audited(Err(_))
            ||| states[n - 1].stage == Stage::LoadFailed && !replies[n - 1].succeeded()
            ||| states[n - 1].stage == Stage::MarkFailed
        }),
{
    let s = states[n - 1];
    let reply = replies[n - 1];
    assert(reply.fits(s.stage));
    assert(s.step(reply, states[n - 1 + 1]));
    lemma_wf(states, replies, n - 1);
    lemma_outline(s, reply, states[n]);
    lemma_rank_grows(states, replies, i, n - 1);
    if install::is_main(s.stage) && !holds_candidate(s.stage) {
        if install::rank(s.stage) == install::rank(Stage::SwapActive) {
            lemma_rank_injective(s.stage, Stage::SwapActive);
        } else {
            law_stages_in_order(states, replies, n - 1, Stage::SwapActive);
        }
    } else if s.stage == Stage::Reject {
        law_rejected_bytes_are_not_kept(states, replies, i, n - 1);
    }
}

/// Law: a candidate that fails has had no part in service. Until it failed nothing
/// was put in service and the version before was left running, and nothing was
/// done that comes after the step that failed.
pub proof fn law_failed_candidate_changes_no_service(
    states: Seq<InstallRun>,
    replies: Seq<Reply>,
    i: int,
    n: int,
)
    requires
        is_run(states, replies),
        0 <= i < n < states.len(),
        states[n].stage == Stage::Fail,
    ensures
        install::rank(states[i].stage) <= install::rank(Stage::MarkActive),
        install::rank(states[i].stage) <= install::rank(states[n - 1].stage),
{
    let reply = replies[n - 1];
    assert(reply.fits(states[n - 1].stage));
    assert(states[n - 1].step(reply, states[n - 1 + 1]));
    lemma_wf(states, replies, n - 1);
    lemma_outline(states[n - 1], reply, states[n - 1 + 1]);
    lemma_rank_grows(states, replies, i, n - 1);
}

/// Law: of bytes that are turned away nothing is kept.
pub proof fn law_rejected_bytes_are_not_kept(
    states: Seq<InstallRun>,
    replies: Seq<Reply>,
    i: int,
    n: int,
)
    requires
        is_run(states, replies),
        0 <= i < n < states.len(),
        states[n].stage == Stage::Reject,
    ensures
        install::rank(states[i].stage) <= install::rank(Stage::ReadSurface),
{
    let reply = replies[n - 1];
    assert(reply.fits(states[n - 1].stage));
    assert(states[n - 1].step(reply, states[n - 1 + 1]));
    lemma_wf(states, replies, n - 1);
    lemma_outline(states[n - 1], reply, states[n - 1 + 1]);
    lemma_rank_grows(states, replies, i, n - 1);
}

proof fn lemma_unfinished_has_no_result(states: Seq<InstallRun>, replies: Seq<Reply>, n: int)
    requires
        is_run(states, replies),
        0 <= n < replies.len(),
        states[0].result is None,
    ensures
        states[n].result is None,
    decreases n,
{
    if n > 0 {
        lemma_unfinished_has_no_result(states, replies, n - 1);
        let before = replies[n - 1];
        let after = replies[n];
        assert(before.fits(states[n - 1].stage));
        assert(states[n - 1].step(before, states[n - 1 + 1]));
        assert(after.fits(states[n].stage));
        assert(states[n].stage != Stage::Finished);
        lemma_wf(states, replies, n - 1);
        lemma_outline(states[n - 1], before, states[n - 1 + 1]);
    }
}

pub(crate) proof fn lemma_rank_grows(states: Seq<InstallRun>, replies: Seq<Reply>, i: int, n: int)
    requires
        is_run(states, replies),
        0 <= i <= n < states.len(),
    ensures
        install::rank(states[i].stage) <= install::rank(states[n].stage),
    decreases n - i,
{
    if i < n {
        let reply = replies[n - 1];
        assert(reply.fits(states[n - 1].stage));
        lemma_wf(states, replies, n - 1);
        law_step_moves_forward(states[n - 1], reply, states[n - 1 + 1]);
        lemma_rank_grows(states, replies, i, n - 1);
    }
}

/// The record of the installation that an upgrade or a rollback is about.
pub open spec fn is_current(target: PipelineTarget, current: InstallationRecord) -> bool {
    ||| target matches PipelineTarget::Upgrade { current: c } && c == current
    ||| target matches PipelineTarget::Rollback { current: c } && c == current
}

/// What a step does to what the run has learned: each fact is set from the reply
/// that brings it and then stays.
pub open spec fn learns(s: InstallRun, reply: Reply, next: InstallRun) -> bool {
    let n = install::rank(s.stage);
    &&& next.facts.byte_len == s.facts.byte_len
    &&& match reply {
        Reply::Surface(Ok(p)) => next.facts.surface == Some(p.0) || !install::is_main(next.stage),
        _ => next.facts.surface == s.facts.surface && next.facts.required == s.facts.required,
    }
    &&& n != install::rank(Stage::FirstDescriptor) ==> next.facts.descriptor == s.facts.descriptor
    &&& s.stage == Stage::FirstDescriptor ==> (reply matches Reply::Descriptor(Ok(d)) ==> {
        &&& next.facts.descriptor == Some(d)
        &&& next.stage == Stage::SecondDescriptor
    })
    &&& s.stage != Stage::CheckIdentity ==> next.facts.component_id == s.facts.component_id
    &&& s.stage == Stage::CheckIdentity && install::is_main(next.stage) ==> (next.facts.component_id matches Some(
        id,
    ) && id@ == s.facts.descriptor->0.component_id@)
    &&& s.stage != Stage::ResolveVersion && s.stage != Stage::AllocateInstallation ==> next.facts.installation
        == s.facts.installation
    &&& reply matches Reply::Allocated(id) ==> next.facts.installation == Some(id)
    &&& s.stage == Stage::ResolveVersion && next.stage == Stage::RecordIdentity ==> exists|c: InstallationRecord| {
        &&& #[trigger] is_current(s.facts.target, c)
        &&& next.facts.installation == Some(c.installation_id)
    }
    &&& s.stage == Stage::ResolveVersion && next.stage == Stage::AllocateInstallation ==> next.facts.installation
        == s.facts.installation
    &&& next.stage != Stage::CheckWasi ==> next.facts.grants == s.facts.grants && next.facts.wasi == s.facts.wasi
    &&& next.stage == Stage::CheckWasi ==> (match s.facts.approval {
        GrantApproval::Explicit(grants) => next.facts.grants@ == grants@,
        GrantApproval::ReuseExisting => reply matches Reply::Grants(Ok(grants)) && next.facts.grants@ == grants@,
    })
    &&& s.stage != Stage::ReadManifest ==> next.facts.manifest == s.facts.manifest
    &&& s.stage == Stage::ReadManifest && install::is_main(next.stage) ==> (reply matches Reply::Manifest(Ok(m))
        && next.facts.manifest == m && next.facts.cached == 0)
    &&& s.stage == Stage::CacheAsset ==> (reply matches Reply::AssetCached(Ok(kept)) ==> next.facts.cached
        == s.facts.cached + if kept { 1int } else { 0 })
    &&& s.stage != Stage::ReadManifest && s.stage != Stage::CacheAsset ==> next.facts.cached == s.facts.cached
    &&& match reply {
        Reply::Candidate(Ok(Some(Ok(state)))) => next.facts.next_state == Some(state),
        _ => next.facts.next_state == s.facts.next_state,
    }
    &&& next.stage == Stage::Finished ==> (next.result matches Some(Ok(PipelineResult::Activated {
        installation,
        digest,
    })) ==> digest == s.facts.digest && ({
        ||| is_current(s.facts.target, installation) && installation.active_digest == Some(digest) && n
            <= install::rank(Stage::StoreGrants)
        ||| {
            &&& install::rank(Stage::SwapActive) <= n <= install::rank(Stage::MarkDisabled)
            &&& Some(installation.installation_id) == s.facts.installation
            &&& Some(installation.component_id) == s.facts.component_id
            &&& declares(s.facts.descriptor->0, installation.version)
            &&& installation.active_digest == Some(digest)
            &&& installation.state == ComponentLifecycleState::Active
            &&& s.facts.is_install() ==> installation.last_known_good_digest == Some(digest)
            &&& forall|c: InstallationRecord| #[trigger] is_current(s.facts.target, c)
                ==> installation.last_known_good_digest == c.active_digest
        }
    }))
}

/// The version is the one that the descriptor declares, number by number.
pub open spec fn declares(d: GuestComponentDescriptor, version: ComponentVersion) -> bool {
    &&& version.major == d.major
    &&& version.minor == d.minor
    &&& version.patch == d.patch
}

proof fn lemma_learns_early(s: InstallRun, reply: Reply, next: InstallRun)
    requires
        s.wf(),
        reply.fits(s.stage),
        install::rank(s.stage) <= install::rank(Stage::UpsertCandidate),
        s.step(reply, next),
        s.result is None,
    ensures
        learns(s, reply, next),
{
    reveal(InstallRun::keeps_bytes);
}

proof fn lemma_learns_identity(s: InstallRun, reply: Reply, next: InstallRun)
    requires
        s.wf(),
        reply.fits(s.stage),
        install::rank(Stage::FirstDescriptor) <= install::rank(s.stage) <= install::rank(Stage::MarkValidated),
        s.step(reply, next),
        s.result is None,
    ensures
        learns(s, reply, next),
{
    reveal(InstallRun::establishes_identity);
    if s.stage == Stage::ResolveVersion && next.stage == Stage::RecordIdentity {
        let c = s.facts.target.spec_current()->0;
        assert(is_current(s.facts.target, c));
    }
}

proof fn lemma_learns_grants(s: InstallRun, reply: Reply, next: InstallRun)
    requires
        s.wf(),
        reply.fits(s.stage),
        install::rank(Stage::LoadGrants) <= install::rank(s.stage) <= install::rank(Stage::MarkActivating),
        s.step(reply, next),
        s.result is None,
    ensures
        learns(s, reply, next),
{
    reveal(InstallRun::resolves_grants);
}

proof fn lemma_learns_assets(s: InstallRun, reply: Reply, next: InstallRun)
    requires
        s.wf(),
        reply.fits(s.stage),
        install::rank(Stage::Instantiate) <= install::rank(s.stage) <= install::rank(Stage::StoreGrants),
        s.step(reply, next),
        s.result is None,
    ensures
        learns(s, reply, next),
{
    reveal(InstallRun::brings_up);
    if s.stage == Stage::CacheAsset {
        assert(s.facts.manifest->0.assets.len() <= usize::MAX);
    }
}

proof fn lemma_learns_service(s: InstallRun, reply: Reply, next: InstallRun)
    requires
        s.wf(),
        reply.fits(s.stage),
        install::rank(Stage::FindPrevious) <= install::rank(s.stage),
        s.step(reply, next),
        s.result is None,
    ensures
        learns(s, reply, next),
{
    reveal(InstallRun::puts_in_service);
    reveal(InstallRun::retires_previous);
    reveal(InstallRun::records_failure);
}

proof fn lemma_learns(s: InstallRun, reply: Reply, next: InstallRun)
    requires
        s.wf(),
        reply.fits(s.stage),
        s.step(reply, next),
        s.result is None,
    ensures
        learns(s, reply, next),
{
    let n = install::rank(s.stage);
    if n <= install::rank(Stage::UpsertCandidate) {
        lemma_learns_early(s, reply, next);
    } else if n <= install::rank(Stage::MarkValidated) {
        lemma_learns_identity(s, reply, next);
    } else if n <= install::rank(Stage::MarkActivating) {
        lemma_learns_grants(s, reply, next);
    } else if n <= install::rank(Stage::StoreGrants) {
        lemma_learns_assets(s, reply, next);
    } else {
        lemma_learns_service(s, reply, next);
    }
}

pub(crate) proof fn lemma_step_learns(states: Seq<InstallRun>, replies: Seq<Reply>, n: int)
    requires
        is_run(states, replies),
        states[0].result is None,
        0 <= n < replies.len(),
    ensures
        states[n].wf(),
        replies[n].fits(states[n].stage),
        states[n].result is None,
        outline(states[n], replies[n], states[n + 1]),
        learns(states[n], replies[n], states[n + 1]),
{
    let reply = replies[n];
    assert(reply.fits(states[n].stage));
    assert(states[n].step(reply, states[n + 1]));
    lemma_wf(states, replies, n);
    lemma_unfinished_has_no_result(states, replies, n);
    lemma_outline(states[n], reply, states[n + 1]);
    lemma_learns(states[n], reply, states[n + 1]);
}

/// Law: what a run has learned stays: the surface, the descriptor, the identity,
/// the installation, the grants and the manifest, each from the stage on that
/// follows the one that brings it.
pub proof fn law_what_is_learned_stays(states: Seq<InstallRun>, replies: Seq<Reply>, i: int, n: int)
    requires
        is_run(states, replies),
        states[0].result is None,
        0 <= i <= n < states.len(),
    ensures
        states[n].facts.byte_len == states[i].facts.byte_len,
        install::rank(states[i].stage) > install::rank(Stage::ReadSurface) ==> {
            &&& states[n].facts.surface == states[i].facts.surface
            &&& states[n].facts.required == states[i].facts.required
        },
        install::rank(states[i].stage) > install::rank(Stage::FirstDescriptor) ==> states[n].facts.descriptor
            == states[i].facts.descriptor,
        install::rank(states[i].stage) > install::rank(Stage::CheckIdentity) ==> states[n].facts.component_id
            == states[i].facts.component_id,
        install::rank(states[i].stage) > install::rank(Stage::AllocateInstallation) ==> states[n].facts.installation
            == states[i].facts.installation,
        install::rank(states[i].stage) >= install::rank(Stage::CheckWasi) ==> {
            &&& states[n].facts.grants == states[i].facts.grants
            &&& states[n].facts.wasi == states[i].facts.wasi
        },
        install::rank(states[i].stage) > install::rank(Stage::ReadManifest) ==> states[n].facts.manifest
            == states[i].facts.manifest,
        install::rank(states[i].stage) > install::rank(Stage::CacheAsset) ==> states[n].facts.cached
            == states[i].facts.cached,
    decreases n - i,
{
    if i < n {
        law_what_is_learned_stays(states, replies, i, n - 1);
        lemma_step_learns(states, replies, n - 1);
        lemma_rank_grows(states, replies, i, n - 1);
        if install::is_main(states[n].stage) {
            lemma_leads_forward(states[n - 1].facts, states[n - 1].stage, states[n].stage);
        }
    }
}

proof fn lemma_identity(
    states: Seq<InstallRun>,
    replies: Seq<Reply>,
    i: int,
    d: GuestComponentDescriptor,
    n: int,
)
    requires
        is_run(states, replies),
        states[0].result is None,
        0 <= i < n < states.len(),
        states[i].stage == Stage::FirstDescriptor,
        replies[i] == Reply::Descriptor(Ok(d)),
    ensures
        states[n].facts.descriptor == Some(d),
        install::is_main(states[n].stage) && install::rank(states[n].stage) > install::rank(
            Stage::CheckIdentity,
        ) ==> (states[n].facts.component_id matches Some(id) && id@ == d.component_id@),
    decreases n,
{
    lemma_step_learns(states, replies, n - 1);
    if i < n - 1 {
        lemma_identity(states, replies, i, d, n - 1);
        lemma_step_learns(states, replies, i);
        lemma_rank_grows(states, replies, i + 1, n - 1);
    }
}

/// Law: every version that a run asks about, binds, records, tells the log of or
/// puts in service, and the version of what it comes to, is the one that the
/// component's descriptor declares: major for major, minor for minor and patch for
/// patch. With it go the descriptor's identifier and the run's digest.
pub proof fn law_version_is_the_declared_one(
    states: Seq<InstallRun>,
    replies: Seq<Reply>,
    i: int,
    d: GuestComponentDescriptor,
    n: int,
    a: Action<'_>,
)
    requires
        is_run(states, replies),
        states[0].result is None,
        0 <= i < n < states.len(),
        states[i].stage == Stage::FirstDescriptor,
        replies[i] == Reply::Descriptor(Ok(d)),
        states[n].asks(a),
    ensures
        a matches Action::ResolveVersion { component_id, version } ==> {
            &&& version.major == d.major
            &&& version.minor == d.minor
            &&& version.patch == d.patch
            &&& component_id@ == d.component_id@
        },
        a matches Action::BindVersion(b) ==> {
            &&& b.version.major == d.major
            &&& b.version.minor == d.minor
            &&& b.version.patch == d.patch
            &&& b.component_id@ == d.component_id@
            &&& b.digest == states[0].facts.digest
        },
        a matches Action::InsertInstallation(r) ==> {
            &&& r.version.major == d.major
            &&& r.version.minor == d.minor
            &&& r.version.patch == d.patch
            &&& r.component_id@ == d.component_id@
            &&& r.active_digest is None
            &&& r.last_known_good_digest is None
            &&& r.state == ComponentLifecycleState::Validated
        },
        a matches Action::UpdateInstallation(r) ==> {
            &&& r.version.major == d.major
            &&& r.version.minor == d.minor
            &&& r.version.patch == d.patch
            &&& r.component_id@ == d.component_id@
            &&& r.active_digest == Some(states[0].facts.digest)
            &&& r.state == ComponentLifecycleState::Active
        },
        a matches Action::SwapActive(x) ==> {
            &&& x.version.major == d.major
            &&& x.version.minor == d.minor
            &&& x.version.patch == d.patch
            &&& x.component_id@ == d.component_id@
            &&& x.digest == states[0].facts.digest
        },
        a matches Action::Audit(AuditEvent::IdentityRegistered { installation, component_id, version, digest })
            ==> {
            &&& version.major == d.major
            &&& version.minor == d.minor
            &&& version.patch == d.patch
            &&& component_id@ == d.component_id@
            &&& digest == states[0].facts.digest
        },
        a matches Action::Audit(AuditEvent::ActivationSucceeded { installation, component_id, version, digest })
            ==> {
            &&& version.major == d.major
            &&& version.minor == d.minor
            &&& version.patch == d.patch
            &&& component_id@ == d.component_id@
            &&& digest == states[0].facts.digest
        },
{
    lemma_identity(states, replies, i, d, n);
    lemma_purpose_kept(states, replies, 0, n);
}

/// Law: a run that puts its bytes in service comes to an installation with the
/// version and the identifier of the descriptor, with the bytes in service. Bytes
/// that were in service already leave their installation as it was.
pub proof fn law_activated_version_is_the_declared_one(
    states: Seq<InstallRun>,
    replies: Seq<Reply>,
    i: int,
    d: GuestComponentDescriptor,
    n: int,
    installation: InstallationRecord,
    digest: ContentDigest,
)
    requires
        is_run(states, replies),
        states[0].result is None,
        0 <= i < n < states.len(),
        states[i].stage == Stage::FirstDescriptor,
        replies[i] == Reply::Descriptor(Ok(d)),
        states[n].stage == Stage::Finished,
        states[n].result == Some(
            Ok::<PipelineResult, ApplicationError>(PipelineResult::Activated { installation, digest }),
        ),
    ensures
        digest == states[0].facts.digest,
        installation.active_digest == Some(digest),
        ({
            ||| is_current(states[0].facts.target, installation)
            ||| {
                &&& installation.version.major == d.major
                &&& installation.version.minor == d.minor
                &&& installation.version.patch == d.patch
                &&& installation.component_id@ == d.component_id@
                &&& installation.state == ComponentLifecycleState::Active
                &&& Some(installation.installation_id) == states[n - 1].facts.installation
            }
        }),
        states[0].facts.target is Install ==> {
            &&& installation.version.major == d.major
            &&& installation.version.minor == d.minor
            &&& installation.version.patch == d.patch
            &&& installation.last_known_good_digest == Some(digest)
        },
        forall|c: InstallationRecord| #[trigger]
            is_current(states[0].facts.target, c) && c.active_digest != Some(digest) ==> {
                &&& installation.version.major == d.major
                &&& installation.version.minor == d.minor
                &&& installation.version.patch == d.patch
                &&& installation.last_known_good_digest == c.active_digest
            },
{
    lemma_step_learns(states, replies, n - 1);
    lemma_purpose_kept(states, replies, 0, n - 1);
    if i < n - 1 {
        lemma_identity(states, replies, i, d, n - 1);
    }
}

/// Law: two runs whose descriptors differ in the minor number alone resolve, bind,
/// record and put in service versions that differ in the minor number alone.
pub proof fn law_minor_alone_differs(
    states: Seq<InstallRun>,
    replies: Seq<Reply>,
    i: int,
    d: GuestComponentDescriptor,
    n: int,
    a: Action<'_>,
    states2: Seq<InstallRun>,
    replies2: Seq<Reply>,
    i2: int,
    d2: GuestComponentDescriptor,
    n2: int,
    a2: Action<'_>,
)
    requires
        is_run(states, replies),
        states[0].result is None,
        0 <= i < n < states.len(),
        states[i].stage == Stage::FirstDescriptor,
        replies[i] == Reply::Descriptor(Ok(d)),
        states[n].asks(a),
        is_run(states2, replies2),
        states2[0].result is None,
        0 <= i2 < n2 < states2.len(),
        states2[i2].stage == Stage::FirstDescriptor,
        replies2[i2] == Reply::Descriptor(Ok(d2)),
        states2[n2].asks(a2),
        d.major == d2.major,
        d.patch == d2.patch,
        d.minor != d2.minor,
    ensures
        a matches Action::ResolveVersion { component_id, version } ==> a2 matches Action::ResolveVersion {
            component_id: component_id2,
            version: version2,
        } ==> version.major == version2.major && version.patch == version2.patch && version.minor
            != version2.minor,
        a matches Action::BindVersion(b) ==> a2 matches Action::BindVersion(b2) ==> b.version.major
            == b2.version.major && b.version.patch == b2.version.patch && b.version.minor != b2.version.minor,
        a matches Action::UpdateInstallation(r) ==> a2 matches Action::UpdateInstallation(r2) ==> r.version.major
            == r2.version.major && r.version.patch == r2.version.patch && r.version.minor != r2.version.minor,
        a matches Action::SwapActive(x) ==> a2 matches Action::SwapActive(x2) ==> x.version.major
            == x2.version.major && x.version.patch == x2.version.patch && x.version.minor != x2.version.minor,
{
    law_version_is_the_declared_one(states, replies, i, d, n, a);
    law_version_is_the_declared_one(states2, replies2, i2, d2, n2, a2);
}

pub(crate) proof fn lemma_installation(states: Seq<InstallRun>, replies: Seq<Reply>, c: InstallationRecord, n: int)
    requires
        is_run(states, replies),
        states[0].result is None,
        0 <= n < states.len(),
        is_current(states[0].facts.target, c),
    ensures
        install::is_main(states[n].stage) && install::rank(states[n].stage) > install::rank(
            Stage::AllocateInstallation,
        ) ==> states[n].facts.installation == Some(c.installation_id),
    decreases n,
{
    if n > 0 {
        lemma_installation(states, replies, c, n - 1);
        lemma_step_learns(states, replies, n - 1);
        lemma_purpose_kept(states, replies, 0, n - 1);
    }
}

/// Law: an upgrade or a rollback of an installation works on that installation
/// alone: it prepares, records, audits and puts in service under its identifier,
/// keeps the grants there, and what it drains, disables and names as the version
/// before is the digest that the installation had in service.
pub proof fn law_upgrade_works_on_its_installation(
    states: Seq<InstallRun>,
    replies: Seq<Reply>,
    c: InstallationRecord,
    n: int,
    a: Action<'_>,
)
    requires
        is_run(states, replies),
        states[0].result is None,
        0 <= n < states.len(),
        is_current(states[0].facts.target, c),
        states[n].asks(a),
    ensures
        !(a is AllocateInstallation) && !(a is InsertInstallation),
        a matches Action::LoadGrants { installation } ==> installation == c.installation_id,
        a matches Action::Prepare { installation, wasi, budget } ==> installation == c.installation_id,
        a matches Action::StoreGrants { installation, grants } ==> installation == c.installation_id,
        a matches Action::FindPrevious { installation } ==> installation == c.installation_id,
        a matches Action::UpdateInstallation(r) ==> {
            &&& r.installation_id == c.installation_id
            &&& r.last_known_good_digest == c.active_digest
        },
        a matches Action::SwapActive(x) ==> x.installation_id == c.installation_id,
        a matches Action::Audit(AuditEvent::UpgradeSwapped { installation, from, to }) ==> {
            &&& installation == c.installation_id
            &&& Some(from) == c.active_digest
            &&& to == states[0].facts.digest
            &&& states[0].facts.target is Upgrade
        },
        a matches Action::Audit(AuditEvent::Rollback { installation, from, to }) ==> {
            &&& installation == c.installation_id
            &&& Some(from) == c.active_digest
            &&& to == states[0].facts.digest
            &&& states[0].facts.target is Rollback
        },
        !(a matches Action::Audit(AuditEvent::ActivationSucceeded { .. })),
        a matches Action::Audit(AuditEvent::DrainStarted { installation, digest, deadline_secs }) ==> {
            &&& installation == c.installation_id
            &&& Some(digest) == c.active_digest
            &&& deadline_secs * 1_000_000_000 <= states[n].facts.config.drain_deadline.nanos < (deadline_secs
                + 1) * 1_000_000_000
        },
        a matches Action::Drain { deadline } ==> deadline == states[n].facts.config.drain_deadline,
        a matches Action::Audit(AuditEvent::DrainCompleted { installation, digest }) ==> {
            &&& installation == c.installation_id
            &&& Some(digest) == c.active_digest
        },
        a matches Action::NextState { digest, event } ==> {
            &&& (event == ComponentLifecycleEvent::DrainStarted || event
                == ComponentLifecycleEvent::DrainCompleted) && install::is_main(states[n].stage) ==> Some(digest)
                == c.active_digest
            &&& event == ComponentLifecycleEvent::ValidationSucceeded || event
                == ComponentLifecycleEvent::ActivationRequested || event
                == ComponentLifecycleEvent::ReadinessSucceeded ==> install::is_main(states[n].stage) ==> digest
                == states[0].facts.digest
        },
{
    lemma_installation(states, replies, c, n);
    lemma_purpose_kept(states, replies, 0, n);
    lemma_wf(states, replies, n);
}

/// Law: an install is kept under the identifier that it was given.
pub proof fn law_install_works_on_the_allocated_installation(
    states: Seq<InstallRun>,
    replies: Seq<Reply>,
    i: int,
    id: InstallationId,
    n: int,
    a: Action<'_>,
)
    requires
        is_run(states, replies),
        states[0].result is None,
        0 <= i < n < states.len(),
        states[i].stage == Stage::AllocateInstallation,
        replies[i] == Reply::Allocated(id),
        states[n].asks(a),
    ensures
        a matches Action::InsertInstallation(r) ==> r.installation_id == id,
        a matches Action::Prepare { installation, wasi, budget } ==> installation == id,
        a matches Action::StoreGrants { installation, grants } ==> installation == id,
        a matches Action::UpdateInstallation(r) ==> {
            &&& r.installation_id == id
            &&& r.last_known_good_digest == Some(states[0].facts.digest)
        },
        a matches Action::SwapActive(x) ==> x.installation_id == id,
        a matches Action::Audit(AuditEvent::IdentityRegistered { installation, .. }) ==> installation == id,
        a matches Action::Audit(AuditEvent::ActivationStarted { installation }) ==> installation == id,
        a matches Action::Audit(AuditEvent::ActivationSucceeded { installation, .. }) ==> installation == id,
        a matches Action::Audit(AuditEvent::GrantsApproved { installation, .. }) ==> installation == id,
        a matches Action::Audit(AuditEvent::WebManifestLoaded { installation, .. }) ==> installation == id,
        !(a is FindPrevious) && !(a is Drain),
        !(a matches Action::Audit(AuditEvent::UpgradeSwapped { .. })) && !(a matches Action::Audit(
            AuditEvent::Rollback { .. },
        )),
        states[n].result matches Some(Ok(PipelineResult::Activated { installation, digest }))
            ==> installation.installation_id == id,
{
    lemma_step_learns(states, replies, i);
    lemma_rank_grows(states, replies, i, n);
    assert(install::rank(states[i + 1].stage) > install::rank(Stage::AllocateInstallation)) by {
        if install::is_main(states[i + 1].stage) {
            lemma_leads_forward(states[i].facts, states[i].stage, states[i + 1].stage);
        }
    }
    law_what_is_learned_stays(states, replies, i + 1, n);
    lemma_purpose_kept(states, replies, 0, n);
    lemma_purpose_kept(states, replies, i, n);
    lemma_wf(states, replies, n);
    if n > 0 {
        lemma_step_learns(states, replies, n - 1);
        if i + 1 < n {
            lemma_purpose_kept(states, replies, i, n - 1);
            law_what_is_learned_stays(states, replies, i + 1, n - 1);
        }
    }
}

} // verus!
