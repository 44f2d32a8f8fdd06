//! What a run makes of each answer: when it goes on, what it refuses and what it
//! then tells, and what it asks of the host with what it has learned.
use vstd::prelude::*;

use crate::audit::{AuditEvent, RejectReason};
use crate::error::ApplicationError;
use crate::guest::GuestComponentDescriptor;
use crate::install;
use crate::install::{Facts, InstallRun, PipelineResult, Reply, Stage};
use crate::install_laws::{
    declares, is_current, is_run, law_what_is_learned_stays, lemma_leads_forward, lemma_outline,
    lemma_purpose_kept, lemma_rank_grows, lemma_step_learns, lemma_wf,
};
use crate::install_rules;
use crate::install_rules::{
    import_is_served, law_identity_is_refused_only_for_cause, law_imports_are_planned_where_all_are_served,
    law_manifest_is_refused_only_for_cause, law_missing_is_empty_iff_all_covered,
};
use crate::install_work::Action;
use crate::model::{
    ContractSurface, GrantApproval, InstallationGrant, InstallationRecord, PipelineTarget, RuntimeConfig,
};
use crate::ports::RegistryError;
use crate::values::{
    CapabilityId, ComponentLifecycleEvent, ComponentLifecycleState, ContentDigest, DomainError,
    InstallationId,
};
use crate::web_path::WebManifestData;

verus! {

/// Two accounts of a component agree in every part.
pub open spec fn same_account(a: GuestComponentDescriptor, b: GuestComponentDescriptor) -> bool {
    &&& a.component_id@ == b.component_id@
    &&& a.major == b.major
    &&& a.minor == b.minor
    &&& a.patch == b.patch
    &&& a.display_name@ == b.display_name@
    &&& (a.author is Some <==> b.author is Some)
    &&& a.author matches Some(x) ==> b.author matches Some(y) ==> {
        &&& x.display_name@ == y.display_name@
        &&& (x.homepage is Some <==> y.homepage is Some)
        &&& x.homepage matches Some(s) ==> y.homepage matches Some(t) ==> s@ == t@
        &&& (x.description is Some <==> y.description is Some)
        &&& x.description matches Some(s) ==> y.description matches Some(t) ==> s@ == t@
    }
}

/// Some requirement has no grant.
pub open spec fn lacks_a_grant(required: Seq<CapabilityId>, grants: Seq<InstallationGrant>) -> bool {
    exists|i: int|
        0 <= i < required.len() && forall|j: int|
            0 <= j < grants.len() ==> (#[trigger] grants[j]).capability@ != (#[trigger] required[i])@
}

/// The binary exports `name`.
pub open spec fn offers(surface: ContractSurface, name: Seq<char>) -> bool {
    exists|i: int| 0 <= i < surface.exports@.len() && #[trigger] surface.exports@[i]@ == name
}

/// The installation of an upgrade or a rollback has nothing in service.
pub open spec fn nothing_to_replace(f: Facts) -> bool {
    exists|c: InstallationRecord| #[trigger] is_current(f.target, c) && c.active_digest is None
}

/// The asset at place `i` is larger than the host takes.
pub open spec fn oversized(f: Facts, m: WebManifestData, i: int) -> bool {
    0 <= i < m.assets@.len() && m.assets@[i].size > f.config.max_asset_bytes.bytes
}

/// What a run refuses though the work went well.
pub open spec fn refuses(s: InstallRun, reply: Reply) -> bool {
    let f = s.facts;
    match (s.stage, reply) {
        (Stage::ReadSurface, Reply::Surface(Ok((surface, verdicts)))) => {
            ||| !offers(surface, "descriptor"@) && !offers(surface, "operune:component/descriptor@0.1.0"@)
            ||| exists|i: int|
                0 <= i < surface.imports@.len() && !import_is_served(
                    #[trigger] surface.imports@[i]@,
                    verdicts@[i],
                )
        },
        (Stage::SecondDescriptor, Reply::Descriptor(Ok(d))) => !same_account(d, f.descriptor->0),
        (Stage::CheckIdentity, Reply::Identity(Ok(_))) => {
            ||| f.descriptor->0.display_name@.len() == 0
            ||| vstd::utf8::encode_utf8(f.descriptor->0.display_name@).len() > 2048
            ||| exists|c: InstallationRecord| #[trigger]
                is_current(f.target, c) && c.component_id@ != f.descriptor->0.component_id@
        },
        (Stage::ResolveVersion, Reply::Version(Ok(Some(bound)))) => bound != f.digest,
        (Stage::MarkValidated, Reply::Stored(Ok(_))) => f.approval matches GrantApproval::Explicit(grants)
            && lacks_a_grant(f.required@, grants@),
        (Stage::ReadManifest, Reply::Manifest(Ok(None))) => f.approval is ReuseExisting && nothing_to_replace(f),
        (Stage::ReadManifest, Reply::Manifest(Ok(Some(m)))) => {
            ||| m.features.static_assets && !offers(f.surface->0, "assets"@)
            ||| m.features.backend_actions && !offers(f.surface->0, "actions"@)
            ||| m.assets@.len() > f.config.max_web_assets
            ||| oversized(f, m, 0)
            ||| m.assets@.len() == 0 && f.approval is ReuseExisting && nothing_to_replace(f)
        },
        (Stage::CacheAsset, Reply::AssetCached(Ok(_))) => {
            ||| oversized(f, f.manifest->0, f.asset_index + 1)
            ||| f.asset_index + 1 == f.manifest->0.assets@.len() && f.approval is ReuseExisting
                && nothing_to_replace(f)
        },
        (Stage::StoreGrants, Reply::GrantsStored(Ok(_))) => nothing_to_replace(f),
        _ => false,
    }
}

proof fn lemma_same_account(a: GuestComponentDescriptor, b: GuestComponentDescriptor)
    ensures
        same_account(a, b) <==> a@ == b@,
{
}

proof fn lemma_lacks(required: Seq<CapabilityId>, grants: Seq<InstallationGrant>)
    ensures
        lacks_a_grant(required, grants) <==> install_rules::missing_of(required, grants).len() > 0,
{
    law_missing_is_empty_iff_all_covered(required, grants);
    if lacks_a_grant(required, grants) {
        let i = choose|i: int|
            0 <= i < required.len() && forall|j: int|
                0 <= j < grants.len() ==> (#[trigger] grants[j]).capability@ != (#[trigger] required[i])@;
        assert(!install_rules::covered(grants, required[i]@));
    } else {
        assert forall|i: int| 0 <= i < required.len() implies install_rules::covered(
            grants,
            (#[trigger] required[i])@,
        ) by {
            let j = choose|j: int| 0 <= j < grants.len() && (#[trigger] grants[j]).capability@ == required[i]@;
            assert(grants[j].capability@ == required[i]@);
        }
    }
}

proof fn lemma_current(f: Facts)
    ensures
        f.target.spec_current() matches Some(c) ==> is_current(f.target, c),
        f.target is Install <==> f.target.spec_current() is None,
        forall|c: InstallationRecord| #[trigger]
            is_current(f.target, c) <==> f.target.spec_current() == Some(c),
        nothing_to_replace(f) <==> !f.is_install() && f.old_digest() is None,
{
    if !f.is_install() && f.old_digest() is None {
        assert(is_current(f.target, f.target.spec_current()->0));
    }
}

proof fn lemma_refuses_bytes(s: InstallRun, reply: Reply, next: InstallRun)
    requires
        s.wf(),
        reply.fits(s.stage),
        s.step(reply, next),
        install::rank(s.stage) <= install::rank(Stage::UpsertCandidate),
        reply.succeeded(),
    ensures
        next.stage == Stage::Reject <==> refuses(s, reply),
        next.stage != Stage::Fail && next.stage != Stage::Finished,
        install::is_main(next.stage) || next.stage == Stage::Reject,
{
    reveal(InstallRun::keeps_bytes);
    if s.stage == Stage::ReadSurface {
        let surface = reply->Surface_0->Ok_0.0;
        let verdicts = reply->Surface_0->Ok_0.1;
        assert(offers(surface, "descriptor"@) == surface.exports_name("descriptor"@));
        assert(offers(surface, "operune:component/descriptor@0.1.0"@) == surface.exports_name(
            "operune:component/descriptor@0.1.0"@,
        ));
        if next.stage == Stage::RecordCandidate {
            law_imports_are_planned_where_all_are_served(surface, verdicts@, Ok(next.facts.required));
        } else if offers(surface, "descriptor"@) || offers(surface, "operune:component/descriptor@0.1.0"@) {
            law_imports_are_planned_where_all_are_served(surface, verdicts@, Err(next.tail->0.error));
        }
    }
}

proof fn lemma_refuses_identity(s: InstallRun, reply: Reply, next: InstallRun)
    requires
        s.wf(),
        reply.fits(s.stage),
        s.step(reply, next),
        install::rank(Stage::FirstDescriptor) <= install::rank(s.stage) <= install::rank(Stage::MarkValidated),
        reply.succeeded(),
    ensures
        next.stage == Stage::Fail <==> refuses(s, reply),
        install::is_main(next.stage) || next.stage == Stage::Fail,
{
    reveal(InstallRun::establishes_identity);
    lemma_current(s.facts);
    if s.stage == Stage::SecondDescriptor {
        lemma_same_account(reply->Descriptor_0->Ok_0, s.facts.descriptor->0);
    } else if s.stage == Stage::CheckIdentity {
        law_identity_is_refused_only_for_cause(s.facts.descriptor->0, reply->Identity_0);
        if s.facts.target.spec_current() is Some {
            assert(is_current(s.facts.target, s.facts.target.spec_current()->0));
        }
    } else if s.stage == Stage::MarkValidated {
        if s.facts.approval is Explicit {
            lemma_lacks(s.facts.required@, s.facts.approval->Explicit_0@);
        }
    }
}

proof fn lemma_refuses_later(s: InstallRun, reply: Reply, next: InstallRun)
    requires
        s.wf(),
        reply.fits(s.stage),
        s.step(reply, next),
        install::is_main(s.stage),
        install::rank(Stage::LoadGrants) <= install::rank(s.stage),
        reply.succeeded(),
    ensures
        next.stage == Stage::Fail <==> refuses(s, reply),
        install::is_main(next.stage) || next.stage == Stage::Fail || (next.stage == Stage::Finished
            && next.result matches Some(Ok(_))),
{
    reveal(InstallRun::resolves_grants);
    reveal(InstallRun::brings_up);
    reveal(InstallRun::puts_in_service);
    reveal(InstallRun::retires_previous);
    lemma_current(s.facts);
    if s.stage == Stage::ReadManifest {
        let manifest = reply->Manifest_0->Ok_0;
        law_manifest_is_refused_only_for_cause(manifest, s.facts.surface->0, s.facts.config.max_web_assets);
    }
    if s.stage == Stage::CacheAsset {
        assert(s.facts.manifest->0.assets.len() <= usize::MAX);
    }
}

/// Law: an answer that tells of success takes a run on, or to its end with
/// success, unless it is one that the run refuses: a binary without a descriptor
/// or with an import that nothing serves, two accounts that differ, a display name
/// out of bounds, another component than the installation's, a version bound to
/// other bytes, an approval that leaves a requirement open, a manifest that the
/// binary or the limits do not bear out, or an upgrade of what is not in service.
pub proof fn law_success_takes_a_run_on(s: InstallRun, reply: Reply, next: InstallRun)
    requires
        s.wf(),
        reply.fits(s.stage),
        s.step(reply, next),
        install::is_main(s.stage),
        reply.succeeded(),
    ensures
        next.stage == Stage::Fail || next.stage == Stage::Reject <==> refuses(s, reply),
        !refuses(s, reply) ==> install::is_main(next.stage) || (next.stage == Stage::Finished
            && next.result matches Some(Ok(_))),
{
    if install::rank(s.stage) <= install::rank(Stage::UpsertCandidate) {
        lemma_refuses_bytes(s, reply, next);
    } else if install::rank(s.stage) <= install::rank(Stage::MarkValidated) {
        lemma_refuses_identity(s, reply, next);
    } else {
        lemma_refuses_later(s, reply, next);
    }
}

/// The error that stands for an answer that tells of failure.
pub open spec fn told(stage: Stage, reply: Reply, error: ApplicationError) -> bool {
    match reply {
        Reply::Audited(Err(e)) => error == ApplicationError::Audit(e),
        Reply::Stored(Err(e)) => match e {
            RegistryError::VersionBindingConflict { component_id, version, existing, incoming } if stage
                == Stage::BindVersion => error == (ApplicationError::SupplyChainConflict {
                component_id,
                version,
                existing,
                incoming,
            }),
            _ => error == ApplicationError::Registry(e),
        },
        Reply::Ran(Err(e)) => if stage == Stage::Compile {
            error == ApplicationError::InvalidComponent(e)
        } else {
            error == ApplicationError::Runtime(e)
        },
        Reply::Surface(Err(e)) => error == ApplicationError::Runtime(e),
        Reply::Descriptor(Err(e)) => error == ApplicationError::Runtime(e),
        Reply::Identity(Err(e)) => error == ApplicationError::DescriptorViolation("component-id is malformed"),
        Reply::Version(Err(e)) => error == ApplicationError::Registry(e),
        Reply::Candidate(Err(e)) => error == ApplicationError::Registry(e),
        Reply::Candidate(Ok(None)) => error == ApplicationError::Internal("candidate record missing"),
        Reply::Candidate(Ok(Some(Err(e)))) => error == ApplicationError::Domain(e),
        Reply::Grants(Err(e)) => error == ApplicationError::Grants(e),
        Reply::WasiChecked(Err(e)) => error == ApplicationError::GrantInvalid(e),
        Reply::Manifest(Err(e)) => error == ApplicationError::Runtime(e),
        Reply::AssetCached(Err(e)) => error == ApplicationError::Runtime(e),
        Reply::GrantsStored(Err(e)) => error == ApplicationError::Grants(e),
        Reply::Previous(found) => error == ApplicationError::Internal(
            "active snapshot misses the previous runtime",
        ),
        _ => false,
    }
}

/// Law: an answer that tells of failure becomes the caller's error: at once where
/// no candidate is kept yet, once the log has heard of it where the bytes are
/// turned away, and once the candidate is in its failed state otherwise.
pub proof fn law_failure_becomes_the_error(s: InstallRun, reply: Reply, next: InstallRun)
    requires
        s.wf(),
        reply.fits(s.stage),
        s.step(reply, next),
        install::is_main(s.stage),
        !reply.succeeded(),
    ensures
        next.stage == Stage::Finished ==> (next.result matches Some(Err(e)) && told(s.stage, reply, e)),
        next.stage == Stage::Fail || next.stage == Stage::Reject ==> (next.tail matches Some(t) && told(
            s.stage,
            reply,
            t.error,
        )),
        next.stage == Stage::Finished || next.stage == Stage::Fail || next.stage == Stage::Reject,
        next.stage == Stage::Reject <==> s.stage == Stage::Compile,
        next.stage == Stage::Reject ==> next.tail->0.event == (AuditEvent::InstallRejected {
            digest: s.facts.digest,
            reason: RejectReason::InvalidBytes,
        }),
{
    reveal(InstallRun::keeps_bytes);
    reveal(InstallRun::establishes_identity);
    reveal(InstallRun::resolves_grants);
    reveal(InstallRun::brings_up);
    reveal(InstallRun::puts_in_service);
    reveal(InstallRun::retires_previous);
}

/// Law: a candidate that fails is moved on by the event of the phase in which it
/// failed, and the log hears of it under the run's own digest or installation:
/// until its identity is established its validation has failed, until it is
/// activated the resolution, and from then on its readiness.
pub proof fn law_failed_candidate_is_told_by_phase(s: InstallRun, reply: Reply, next: InstallRun)
    requires
        s.wf(),
        reply.fits(s.stage),
        s.step(reply, next),
        install::is_main(s.stage),
        next.stage == Stage::Fail,
    ensures
        next.tail is Some,
        ({
            let n = install::rank(s.stage);
            let t = next.tail->0;
            if n < install::rank(Stage::MarkValidated) || (s.stage == Stage::MarkValidated && !reply.succeeded()) {
                &&& t.transition == Some(ComponentLifecycleEvent::ValidationFailed)
                &&& match t.event {
                    AuditEvent::DescriptorFailed { digest, reason } => digest == s.facts.digest,
                    AuditEvent::DescriptorMismatch { digest } => digest == s.facts.digest && s.stage
                        == Stage::SecondDescriptor && reply.succeeded(),
                    AuditEvent::VersionConflict { component_id, version, existing, incoming } => t.error == (
                    ApplicationError::SupplyChainConflict { component_id, version, existing, incoming }),
                    _ => false,
                }
            } else if n <= install::rank(Stage::MarkActivating) {
                &&& t.transition == Some(ComponentLifecycleEvent::ResolutionFailed)
                &&& t.event matches AuditEvent::ResolutionFailed { installation, missing } && Some(installation)
                    == s.facts.installation
            } else {
                &&& t.transition == Some(ComponentLifecycleEvent::ReadinessFailed)
                &&& t.event matches AuditEvent::ActivationFailed { installation, stage } && installation
                    == s.facts.installation->0
            }
        }),
{
    reveal(InstallRun::keeps_bytes);
    reveal(InstallRun::establishes_identity);
    reveal(InstallRun::resolves_grants);
    reveal(InstallRun::brings_up);
    reveal(InstallRun::puts_in_service);
    reveal(InstallRun::retires_previous);
}

/// Law: bytes without a descriptor, or with an import that nothing serves, are
/// turned away for that, and the log hears of it under their digest.
pub proof fn law_refused_bytes_are_told(
    s: InstallRun,
    surface: ContractSurface,
    verdicts: Vec<Result<(), DomainError>>,
    next: InstallRun,
)
    requires
        s.wf(),
        s.stage == Stage::ReadSurface,
        Reply::Surface(Ok((surface, verdicts))).fits(s.stage),
        s.step(Reply::Surface(Ok((surface, verdicts))), next),
        refuses(s, Reply::Surface(Ok((surface, verdicts)))),
    ensures
        next.stage == Stage::Reject,
        next.tail is Some,
        next.tail->0.transition is None,
        !offers(surface, "descriptor"@) && !offers(surface, "operune:component/descriptor@0.1.0"@) ==> {
            &&& next.tail->0.event == (AuditEvent::InstallRejected {
                digest: s.facts.digest,
                reason: RejectReason::MissingComponentDescriptor,
            })
            &&& next.tail->0.error == ApplicationError::ContractViolation(
                "component must export the operune:component/descriptor interface",
            )
        },
        offers(surface, "descriptor"@) || offers(surface, "operune:component/descriptor@0.1.0"@) ==> {
            &&& next.tail->0.event == (AuditEvent::InstallRejected {
                digest: s.facts.digest,
                reason: RejectReason::ContractSurface,
            })
            &&& next.tail->0.error is Domain || next.tail->0.error is UnsupportedCapability
        },
{
    let reply = Reply::Surface(Ok((surface, verdicts)));
    lemma_refuses_bytes(s, reply, next);
    reveal(InstallRun::keeps_bytes);
    assert(offers(surface, "descriptor"@) == surface.exports_name("descriptor"@));
    assert(offers(surface, "operune:component/descriptor@0.1.0"@) == surface.exports_name(
        "operune:component/descriptor@0.1.0"@,
    ));
}

/// Law: a refused identity is told for what it is: accounts that differ, another
/// component than the installation's, or a version bound to other bytes, each with
/// what was found and what was expected.
pub proof fn law_refused_identity_is_told(s: InstallRun, reply: Reply, next: InstallRun)
    requires
        s.wf(),
        reply.fits(s.stage),
        s.step(reply, next),
        refuses(s, reply),
    ensures
        s.stage == Stage::SecondDescriptor ==> {
            &&& next.tail->0.event == (AuditEvent::DescriptorMismatch { digest: s.facts.digest })
            &&& next.tail->0.error is DescriptorViolation
        },
        s.stage == Stage::CheckIdentity ==> ({
            ||| next.tail->0.error == ApplicationError::DescriptorViolation(
                "display-name is empty or exceeds the host-side limit",
            )
            ||| next.tail->0.error matches ApplicationError::UpgradeComponentMismatch { expected, actual } && {
                &&& actual@ == s.facts.descriptor->0.component_id@
                &&& exists|c: InstallationRecord| #[trigger]
                    is_current(s.facts.target, c) && c.component_id == expected
            }
        }),
        s.stage == Stage::ResolveVersion ==> (next.tail->0.error matches ApplicationError::SupplyChainConflict {
            component_id,
            version,
            existing,
            incoming,
        } && {
            &&& Some(component_id) == s.facts.component_id
            &&& declares(s.facts.descriptor->0, version)
            &&& reply == Reply::Version(Ok(Some(existing)))
            &&& incoming == s.facts.digest
        }),
{
    reveal(InstallRun::establishes_identity);
    lemma_current(s.facts);
    if s.stage == Stage::SecondDescriptor {
        lemma_same_account(reply->Descriptor_0->Ok_0, s.facts.descriptor->0);
    } else if s.stage == Stage::CheckIdentity {
        law_identity_is_refused_only_for_cause(s.facts.descriptor->0, reply->Identity_0);
        if s.facts.target.spec_current() is Some {
            assert(is_current(s.facts.target, s.facts.target.spec_current()->0));
        }
    }
}

/// Law: where the grants leave a requirement open, those that are open are named,
/// in order, whether an approval is refused or asked for. A run that reuses the
/// grants at hand then ends, with the installation as it is.
pub proof fn law_open_requirements_are_named(
    s: InstallRun,
    reply: Reply,
    next: InstallRun,
    grants: Seq<InstallationGrant>,
)
    requires
        s.wf(),
        reply.fits(s.stage),
        s.step(reply, next),
        ({
            ||| s.stage == Stage::MarkValidated && reply.succeeded() && (s.facts.approval matches GrantApproval::Explicit(
                g,
            ) && g@ == grants)
            ||| s.stage == Stage::LoadGrants && (reply matches Reply::Grants(Ok(g)) && g@ == grants)
        }),
    ensures
        !lacks_a_grant(s.facts.required@, grants) <==> next.stage == Stage::CheckWasi,
        lacks_a_grant(s.facts.required@, grants) && s.stage == Stage::MarkValidated ==> {
            &&& next.stage == Stage::Fail
            &&& next.tail->0.error matches ApplicationError::UnresolvedImport { missing } && missing@
                == install_rules::missing_of(s.facts.required@, grants)
            &&& next.tail->0.event matches AuditEvent::ResolutionFailed { installation, missing } && missing@
                == install_rules::missing_of(s.facts.required@, grants)
        },
        lacks_a_grant(s.facts.required@, grants) && s.stage == Stage::LoadGrants ==> {
            &&& next.stage == Stage::Finished
            &&& next.result matches Some(Ok(PipelineResult::RequiresApproval { installation, missing })) && {
                &&& is_current(s.facts.target, installation)
                &&& missing@ == install_rules::missing_of(s.facts.required@, grants)
            }
        },
{
    reveal(InstallRun::establishes_identity);
    reveal(InstallRun::resolves_grants);
    lemma_current(s.facts);
    lemma_lacks(s.facts.required@, grants);
}

/// Law: the state that the host was told for a digest is the state that it is then
/// asked to write, for the same digest.
pub proof fn law_told_state_is_written(
    s: InstallRun,
    state: ComponentLifecycleState,
    next: InstallRun,
    asked: Action<'_>,
    then_asked: Action<'_>,
)
    requires
        s.wf(),
        Reply::Candidate(Ok(Some(Ok(state)))).fits(s.stage),
        s.step(Reply::Candidate(Ok(Some(Ok(state)))), next),
        s.asks(asked),
        next.asks(then_asked),
    ensures
        asked matches Action::NextState { digest, event } && then_asked == (Action::SetState { digest, state }),
{
    reveal(InstallRun::establishes_identity);
    reveal(InstallRun::resolves_grants);
    reveal(InstallRun::puts_in_service);
    reveal(InstallRun::retires_previous);
    reveal(InstallRun::records_failure);
}

/// Law: each change of state is asked for under its own event, the new bytes'
/// under the run's digest.
pub proof fn law_each_change_has_its_event(s: InstallRun, digest: ContentDigest, event: ComponentLifecycleEvent)
    requires
        s.wf(),
        s.asks(Action::NextState { digest, event }),
    ensures
        s.stage == Stage::LoadValidated ==> event == ComponentLifecycleEvent::ValidationSucceeded,
        s.stage == Stage::LoadActivating ==> event == ComponentLifecycleEvent::ActivationRequested,
        s.stage == Stage::LoadActive ==> event == ComponentLifecycleEvent::ReadinessSucceeded,
        s.stage == Stage::LoadDraining ==> event == ComponentLifecycleEvent::DrainStarted,
        s.stage == Stage::LoadDisabled ==> event == ComponentLifecycleEvent::DrainCompleted,
        s.stage == Stage::LoadFailed ==> Some(event) == s.tail->0.transition,
        s.stage == Stage::LoadDraining || s.stage == Stage::LoadDisabled ==> exists|c: InstallationRecord|
            #[trigger] is_current(s.facts.target, c) && c.active_digest == Some(digest) && digest != s.facts.digest,
        s.stage != Stage::LoadDraining && s.stage != Stage::LoadDisabled ==> digest == s.facts.digest,
{
    lemma_current(s.facts);
}

/// Law: the bytes are kept under the digest of the run, as a fresh candidate of
/// their own length, after the log has heard of that digest.
pub proof fn law_bytes_are_kept_under_their_digest(s: InstallRun, a: Action<'_>)
    requires
        s.wf(),
        s.asks(a),
    ensures
        s.stage == Stage::RecordCandidate ==> a == Action::Audit(
            AuditEvent::CandidatePersisted { digest: s.facts.digest },
        ),
        a matches Action::PersistArtifact { digest } ==> digest == s.facts.digest,
        a matches Action::UpsertCandidate(c) ==> {
            &&& c.digest == s.facts.digest
            &&& c.state == ComponentLifecycleState::Installed
            &&& c.byte_len.bytes == s.facts.byte_len
        },
        a matches Action::CheckIdentity(id) ==> id@ == s.facts.descriptor->0.component_id@,
        s.stage == Stage::Reject || s.stage == Stage::Fail ==> (a matches Action::AuditSetAside(e) && *e
            == s.tail->0.event),
{
}

/// The grants of a run: those of its approval, or those that it read.
pub open spec fn has_grants(states: Seq<InstallRun>, replies: Seq<Reply>, n: int, grants: Seq<InstallationGrant>) -> bool {
    match states[0].facts.approval {
        GrantApproval::Explicit(g) => g@ == grants,
        GrantApproval::ReuseExisting => exists|j: int| {
            &&& 0 <= j < n
            &&& #[trigger] states[j].stage == Stage::LoadGrants
            &&& replies[j] matches Reply::Grants(Ok(g))
            &&& g@ == grants
        },
    }
}

proof fn lemma_grants(states: Seq<InstallRun>, replies: Seq<Reply>, n: int)
    requires
        is_run(states, replies),
        states[0].result is None,
        0 <= n < states.len(),
        install::is_main(states[n].stage),
        install::rank(states[n].stage) >= install::rank(Stage::CheckWasi),
    ensures
        has_grants(states, replies, n, states[n].facts.grants@),
        states[n].facts.wasi@ == install_rules::wasi_grants_of(states[n].facts.grants@),
    decreases n,
{
    lemma_step_learns(states, replies, n - 1);
    lemma_purpose_kept(states, replies, 0, n - 1);
    let s = states[n - 1];
    if states[n].stage == Stage::CheckWasi {
        reveal(InstallRun::establishes_identity);
        reveal(InstallRun::resolves_grants);
        let reply = replies[n - 1];
        assert(s.step(reply, states[n - 1 + 1]));
        if states[0].facts.approval is ReuseExisting {
            assert(states[n - 1].stage == Stage::LoadGrants);
        }
    } else {
        lemma_grants(states, replies, n - 1);
        if states[0].facts.approval is ReuseExisting {
            let j = choose|j: int| {
                &&& 0 <= j < n - 1
                &&& #[trigger] states[j].stage == Stage::LoadGrants
                &&& replies[j] matches Reply::Grants(Ok(g))
                &&& g@ == states[n - 1].facts.grants@
            };
            assert(states[j].stage == Stage::LoadGrants);
        }
    }
}

/// Law: the grants that a run checks, runs the candidate with, tells the log of
/// and writes are the approved ones, or those that it read where none were
/// brought. The candidate runs within the host's budget for candidates.
pub proof fn law_grants_are_those_of_the_approval(
    states: Seq<InstallRun>,
    replies: Seq<Reply>,
    n: int,
    a: Action<'_>,
)
    requires
        is_run(states, replies),
        states[0].result is None,
        0 <= n < states.len(),
        states[n].asks(a),
    ensures
        a matches Action::CheckWasi(w) ==> exists|g: Seq<InstallationGrant>| #[trigger]
            has_grants(states, replies, n, g) && w@ == install_rules::wasi_grants_of(g),
        a matches Action::Prepare { installation, wasi, budget } ==> {
            &&& budget == states[0].facts.config.candidate_budget
            &&& exists|g: Seq<InstallationGrant>| #[trigger]
                has_grants(states, replies, n, g) && wasi@ == install_rules::wasi_grants_of(g)
        },
        a matches Action::StoreGrants { installation, grants } ==> {
            &&& states[0].facts.approval matches GrantApproval::Explicit(g)
            &&& grants@ == g@
        },
        a matches Action::Audit(AuditEvent::GrantsApproved { installation, grants }) ==> {
            &&& states[0].facts.approval matches GrantApproval::Explicit(g)
            &&& install_rules::shapes_match(grants@, g@)
        },
{
    lemma_wf(states, replies, n);
    lemma_purpose_kept(states, replies, 0, n);
    lemma_config_kept(states, replies, n);
    if install::is_main(states[n].stage) && install::rank(states[n].stage) >= install::rank(Stage::CheckWasi) {
        lemma_grants(states, replies, n);
    }
}

proof fn lemma_config_kept(states: Seq<InstallRun>, replies: Seq<Reply>, n: int)
    requires
        is_run(states, replies),
        states[0].result is None,
        0 <= n < states.len(),
    ensures
        states[n].facts.config == states[0].facts.config,
    decreases n,
{
    if n > 0 {
        lemma_step_learns(states, replies, n - 1);
        lemma_config_kept(states, replies, n - 1);
    }
}

/// The answers before `n` that tell of an asset that found room.
pub open spec fn assets_kept(replies: Seq<Reply>, n: int) -> int
    decreases n,
{
    if n <= 0 {
        0
    } else {
        assets_kept(replies, n - 1) + if replies[n - 1] matches Reply::AssetCached(Ok(kept)) && kept {
            1int
        } else {
            0
        }
    }
}

proof fn lemma_none_kept_yet(states: Seq<InstallRun>, replies: Seq<Reply>, n: int)
    requires
        is_run(states, replies),
        states[0].result is None,
        0 <= n < states.len(),
        install::rank(states[n].stage) <= install::rank(Stage::CacheAsset),
        n > 0 ==> states[n - 1].stage != Stage::CacheAsset,
    ensures
        assets_kept(replies, n) == 0,
    decreases n,
{
    if n > 0 {
        lemma_step_learns(states, replies, n - 1);
        lemma_rank_grows(states, replies, n - 1, n);
        if n - 1 > 0 {
            lemma_rank_grows(states, replies, n - 2, n - 1);
            lemma_step_learns(states, replies, n - 2);
            if states[n - 2].stage == Stage::CacheAsset {
                if install::is_main(states[n - 1].stage) {
                    lemma_leads_forward(
                        states[n - 2].facts,
                        states[n - 2].stage,
                        states[n - 1].stage,
                    );
                }
            }
        }
        lemma_none_kept_yet(states, replies, n - 1);
    }
}

proof fn lemma_kept_counts(states: Seq<InstallRun>, replies: Seq<Reply>, n: int)
    requires
        is_run(states, replies),
        states[0].result is None,
        0 <= n < states.len(),
        install::is_main(states[n].stage),
        install::rank(states[n].stage) >= install::rank(Stage::CacheAsset),
    ensures
        states[n].facts.cached == assets_kept(replies, n),
    decreases n,
{
    lemma_step_learns(states, replies, n - 1);
    let s = states[n - 1];
    if s.stage == Stage::ReadManifest {
        if n - 1 > 0 {
            lemma_step_learns(states, replies, n - 2);
            lemma_rank_grows(states, replies, n - 2, n - 1);
        }
        lemma_none_kept_yet(states, replies, n - 1);
    } else {
        lemma_kept_counts(states, replies, n - 1);
    }
}

/// Law: the log hears how many assets the manifest lists and how many of them
/// found room, each counted once.
pub proof fn law_assets_are_counted(
    states: Seq<InstallRun>,
    replies: Seq<Reply>,
    i: int,
    m: Option<WebManifestData>,
    n: int,
    a: Action<'_>,
    installation: InstallationId,
    assets: u64,
    cached: u64,
)
    requires
        is_run(states, replies),
        states[0].result is None,
        0 <= i < n < states.len(),
        states[i].stage == Stage::ReadManifest,
        replies[i] == Reply::Manifest(Ok(m)),
        states[n].stage == Stage::RecordManifest,
        states[n].asks(a),
        a == Action::Audit(AuditEvent::WebManifestLoaded { installation, assets, cached }),
    ensures
        m is None ==> assets == 0,
        m matches Some(x) ==> assets == x.assets@.len(),
        cached == assets_kept(replies, n),
        Some(installation) == states[n].facts.installation,
{
    lemma_kept_counts(states, replies, n);
    lemma_step_learns(states, replies, i);
    lemma_rank_grows(states, replies, i + 1, n);
    assert(install::is_main(states[i + 1].stage));
    lemma_leads_forward(states[i].facts, states[i].stage, states[i + 1].stage);
    law_what_is_learned_stays(states, replies, i + 1, n);
    lemma_wf(states, replies, n);
    assert(states[n].facts.manifest == m);
    if m is Some {
        assert(m->0.assets.len() <= u64::MAX);
    }
}

/// Law: assets are read one after the other from the first to the last: a run
/// comes to the first after the manifest, from each to the one behind it, and goes
/// on only after the last. Each is read by its own path, under the run's digest.
pub proof fn law_assets_are_read_in_order(s: InstallRun, reply: Reply, next: InstallRun, a: Action<'_>)
    requires
        s.wf(),
        reply.fits(s.stage),
        s.step(reply, next),
        s.asks(a),
    ensures
        a matches Action::CacheAsset { digest, path } ==> {
            &&& digest == s.facts.digest
            &&& s.facts.manifest matches Some(m)
            &&& s.facts.asset_index < m.assets@.len()
            &&& path@ == m.assets@[s.facts.asset_index as int].path@
        },
        s.stage == Stage::ReadManifest && next.stage == Stage::CacheAsset ==> next.facts.asset_index == 0,
        s.stage == Stage::ReadManifest && install::is_main(next.stage) && next.stage != Stage::CacheAsset ==> (
        next.facts.manifest matches Some(m) ==> m.assets@.len() == 0),
        s.stage == Stage::CacheAsset && next.stage == Stage::CacheAsset ==> next.facts.asset_index
            == s.facts.asset_index + 1,
        s.stage == Stage::CacheAsset && install::is_main(next.stage) && next.stage != Stage::CacheAsset
            ==> s.facts.asset_index + 1 == s.facts.manifest->0.assets@.len(),
{
    reveal(InstallRun::brings_up);
    lemma_outline(s, reply, next);
    if s.stage == Stage::CacheAsset {
        assert(s.facts.manifest->0.assets.len() <= usize::MAX);
    }
}

/// Law: a run that has only begun knows what it was begun with, and nothing else.
pub proof fn law_fresh_run_knows_what_it_was_begun_with(
    run: InstallRun,
    config: RuntimeConfig,
    approval: GrantApproval,
    byte_len: u64,
    digest: ContentDigest,
    target: PipelineTarget,
)
    requires
        run.is_fresh(config, approval, byte_len, digest, target),
    ensures
        run.facts.config == config,
        run.facts.approval == approval,
        run.facts.target == target,
        run.facts.digest == digest,
        run.facts.byte_len == byte_len,
        run.facts.surface is None,
        run.facts.required@.len() == 0,
        run.facts.descriptor is None,
        run.facts.component_id is None,
        run.facts.installation is None,
        run.facts.grants@.len() == 0,
        run.facts.wasi@.len() == 0,
        run.facts.manifest is None,
        run.facts.asset_index == 0,
        run.facts.cached == 0,
        run.facts.next_state is None,
        run.result is None,
{
}

/// Law: once the log has heard that bytes are turned away, the caller hears why. A
/// failed candidate whose state cannot be read or written ends the run with that
/// failure.
pub proof fn law_caller_hears_why_the_run_ended(s: InstallRun, reply: Reply, next: InstallRun)
    requires
        s.wf(),
        reply.fits(s.stage),
        s.step(reply, next),
    ensures
        s.stage == Stage::Reject && reply.succeeded() ==> {
            &&& next.stage == Stage::Finished
            &&& next.result == Some(Err::<PipelineResult, ApplicationError>(s.tail->0.error))
        },
        s.stage == Stage::LoadFailed && !reply.succeeded() ==> {
            &&& next.stage == Stage::Finished
            &&& next.result matches Some(Err(e)) && told(s.stage, reply, e)
        },
        s.stage == Stage::MarkFailed && !reply.succeeded() ==> {
            &&& next.stage == Stage::Finished
            &&& next.result matches Some(Err(e)) && told(s.stage, reply, e)
        },
{
    reveal(InstallRun::records_failure);
}

/// Law: the log hears at which step a candidate failed, and of open requirements
/// only where some are open.
pub proof fn law_log_hears_the_step_that_failed(s: InstallRun, reply: Reply, next: InstallRun)
    requires
        s.wf(),
        reply.fits(s.stage),
        s.step(reply, next),
        install::is_main(s.stage),
        next.stage == Stage::Fail,
    ensures
        next.tail->0.event matches AuditEvent::DescriptorFailed { digest, reason } ==> match s.stage {
            Stage::FirstDescriptor | Stage::SecondDescriptor => reason == "descriptor-call",
            Stage::CheckIdentity => reason == if next.tail->0.error is UpgradeComponentMismatch {
                "upgrade-identity-mismatch"
            } else {
                "invalid-metadata"
            },
            Stage::ResolveVersion => reason == "version-lookup",
            Stage::BindVersion => reason == "version-binding",
            Stage::InsertInstallation => reason == "installation-record",
            Stage::LoadValidated | Stage::MarkValidated => reason == "candidate-state",
            _ => false,
        },
        next.tail->0.event matches AuditEvent::ActivationFailed { installation, stage } ==> match s.stage {
            Stage::Instantiate => stage == "instantiate",
            Stage::CheckReadiness => stage == "readiness",
            Stage::ReadManifest => stage == "web-manifest" || (reply.succeeded() && (stage == "asset-size" || stage
                == "active-digest")),
            Stage::CacheAsset => if reply.succeeded() {
                stage == "asset-size" || stage == "active-digest"
            } else {
                stage == "asset-read"
            },
            Stage::StoreGrants => stage == if reply.succeeded() {
                "active-digest"
            } else {
                "grant-store"
            },
            Stage::FindPrevious => stage == "previous-runtime",
            Stage::LoadDraining | Stage::MarkDraining => stage == "previous-state",
            Stage::UpdateInstallation => stage == "installation-record",
            Stage::LoadActive | Stage::MarkActive => stage == "candidate-state",
            _ => false,
        },
        next.tail->0.event matches AuditEvent::ResolutionFailed { installation, missing } ==> !reply.succeeded()
            ==> missing@.len() == 0,
{
    reveal(InstallRun::keeps_bytes);
    reveal(InstallRun::establishes_identity);
    reveal(InstallRun::resolves_grants);
    reveal(InstallRun::brings_up);
    reveal(InstallRun::puts_in_service);
    reveal(InstallRun::retires_previous);
}

/// Law: a component requires, import by import and in order, the text before each
/// import's version, and the run knows the surface that it was told.
pub proof fn law_requirements_are_those_of_the_imports(
    s: InstallRun,
    surface: ContractSurface,
    verdicts: Vec<Result<(), DomainError>>,
    next: InstallRun,
)
    requires
        s.wf(),
        s.stage == Stage::ReadSurface,
        Reply::Surface(Ok((surface, verdicts))).fits(s.stage),
        s.step(Reply::Surface(Ok((surface, verdicts))), next),
        !refuses(s, Reply::Surface(Ok((surface, verdicts)))),
    ensures
        next.stage == Stage::RecordCandidate,
        next.facts.surface == Some(surface),
        next.facts.required@.len() == surface.imports@.len(),
        forall|i: int|
            0 <= i < surface.imports@.len() ==> {
                let required = (#[trigger] next.facts.required@[i])@;
                let import = surface.imports@[i]@;
                &&& required.is_prefix_of(import)
                &&& !required.contains('@')
                &&& required.len() < import.len() ==> import[required.len() as int] == '@'
            },
{
    let reply = Reply::Surface(Ok((surface, verdicts)));
    lemma_refuses_bytes(s, reply, next);
    reveal(InstallRun::keeps_bytes);
    law_imports_are_planned_where_all_are_served(surface, verdicts@, Ok(next.facts.required));
}

/// Law: bytes that are in service already stay there: once the grants are written
/// the run ends with the installation as it was. Other bytes go on to replace them,
/// and a fresh install goes into service at once.
pub proof fn law_bytes_in_service_stay_there(s: InstallRun, next: InstallRun, c: InstallationRecord)
    requires
        s.wf(),
        s.stage == Stage::StoreGrants,
        s.step(Reply::GrantsStored(Ok(())), next),
    ensures
        is_current(s.facts.target, c) && c.active_digest == Some(s.facts.digest) ==> {
            &&& next.stage == Stage::Finished
            &&& next.result == Some(
                Ok::<PipelineResult, ApplicationError>(
                    PipelineResult::Activated { installation: c, digest: s.facts.digest },
                ),
            )
        },
        is_current(s.facts.target, c) && c.active_digest is Some && c.active_digest != Some(s.facts.digest)
            ==> next.stage == Stage::FindPrevious,
        s.facts.target is Install ==> next.stage == Stage::RecordSuccess,
{
    reveal(InstallRun::brings_up);
    lemma_current(s.facts);
}

} // verus!
