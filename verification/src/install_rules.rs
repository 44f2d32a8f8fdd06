//! The rules by which a candidate is judged on its way into service.
use vstd::prelude::*;

use crate::contract;
use crate::contract::MAX_DISPLAY_TEXT_LEN;
use crate::error::ApplicationError;
use crate::guest::GuestComponentDescriptor;
use crate::model::{
    law_exports_are_found_by_name, law_import_class_is_its_namespace, ContractSurface, GrantAuditShape, GrantScope, ImportClass, InstallationGrant, WasiGrant,
};
use crate::text;
use crate::values::{CapabilityId, DomainError};
use crate::web_path::WebManifestData;

verus! {

/// An import that this host can plan for.
pub open spec fn import_is_planned(import: Seq<char>, verdict: Result<(), DomainError>) -> bool {
    ImportClass::class_of(import) != ImportClass::Unsupported && verdict is Ok
}

/// Every import before `k` can be planned for.
pub open spec fn planned_before(imports: Seq<String>, verdicts: Seq<Result<(), DomainError>>, k: int) -> bool {
    forall|i: int| 0 <= i < k ==> import_is_planned(#[trigger] imports[i]@, verdicts[i])
}

/// What the plan for a component's imports comes to: one capability for each
/// import, in order, or the error of the first import that cannot be planned
/// for.
pub open spec fn classifies(
    surface: ContractSurface,
    verdicts: Seq<Result<(), DomainError>>,
    r: Result<Vec<CapabilityId>, ApplicationError>,
) -> bool {
    match r {
        Ok(caps) => {
            &&& planned_before(surface.imports@, verdicts, surface.imports@.len() as int)
            &&& caps@.len() == surface.imports@.len()
            &&& forall|i: int|
                0 <= i < caps@.len() ==> (#[trigger] caps@[i])@ == text::before_first(
                    surface.imports@[i]@,
                    '@',
                )
        },
        Err(ApplicationError::Domain(e)) => exists|k: int|
            {
                &&& 0 <= k < surface.imports@.len()
                &&& #[trigger] planned_before(surface.imports@, verdicts, k)
                &&& verdicts[k] == Err::<(), DomainError>(e)
            },
        Err(ApplicationError::UnsupportedCapability(c)) => exists|k: int|
            {
                &&& 0 <= k < surface.imports@.len()
                &&& #[trigger] planned_before(surface.imports@, verdicts, k)
                &&& verdicts[k] is Ok
                &&& ImportClass::class_of(surface.imports@[k]@) == ImportClass::Unsupported
                &&& c@ == text::before_first(surface.imports@[k]@, '@')
            },
        Err(_) => false,
    }
}

fn copy_verdict(v: &Result<(), DomainError>) -> (r: Result<(), DomainError>)
    ensures
        r == *v,
{
    match v {
        Ok(unit) => Ok(*unit),
        Err(e) => Err(e.clone()),
    }
}

/// The capabilities that a component's imports ask for, in order. `verdicts`
/// holds, for each import, what the domain's grammar says of its capability
/// text. The first import that cannot be planned for decides the error.
pub fn classify_imports(surface: &ContractSurface, verdicts: &Vec<Result<(), DomainError>>) -> (r: Result<
    Vec<CapabilityId>,
    ApplicationError,
>)
    requires
        verdicts@.len() == surface.imports@.len(),
    ensures
        classifies(*surface, verdicts@, r),
{
    let mut capabilities: Vec<CapabilityId> = Vec::new();
    let mut i: usize = 0;
    while i < surface.imports.len()
        invariant
            i <= surface.imports@.len(),
            verdicts@.len() == surface.imports@.len(),
            planned_before(surface.imports@, verdicts@, i as int),
            capabilities@.len() == i,
            forall|j: int|
                0 <= j < i ==> (#[trigger] capabilities@[j])@ == text::before_first(
                    surface.imports@[j]@,
                    '@',
                ),
        decreases surface.imports.len() - i,
    {
        let import: &str = surface.imports[i].as_str();
        let unsupported: bool = match ImportClass::normalize(import) {
            ImportClass::Unsupported => true,
            _ => false,
        };
        match ImportClass::capability_id(import, copy_verdict(&verdicts[i])) {
            Err(e) => {
                return Err(e);
            },
            Ok(capability) => {
                if unsupported {
                    return Err(ApplicationError::UnsupportedCapability(capability));
                }
                capabilities.push(capability);
            },
        }
        i = i + 1;
    }
    Ok(capabilities)
}

/// Some grant is for the capability `c`.
pub open spec fn covered(grants: Seq<InstallationGrant>, c: Seq<char>) -> bool {
    exists|i: int| 0 <= i < grants.len() && (#[trigger] grants[i]).capability@ == c
}

/// The required capabilities that no grant covers, in order.
pub open spec fn missing_of(required: Seq<CapabilityId>, grants: Seq<InstallationGrant>) -> Seq<
    CapabilityId,
> {
    required.filter(|c: CapabilityId| !covered(grants, c@))
}

fn is_covered(grants: &Vec<InstallationGrant>, capability: &CapabilityId) -> (r: bool)
    ensures
        r == covered(grants@, capability@),
{
    let mut i: usize = 0;
    while i < grants.len()
        invariant
            i <= grants.len(),
            forall|j: int| 0 <= j < i ==> (#[trigger] grants@[j]).capability@ != capability@,
        decreases grants.len() - i,
    {
        if grants[i].capability.same(capability) {
            assert(grants@[i as int].capability@ == capability@);
            return true;
        }
        i = i + 1;
    }
    false
}

/// The required capabilities that no grant covers.
pub fn missing_capabilities(required: &Vec<CapabilityId>, grants: &Vec<InstallationGrant>) -> (r: Vec<
    CapabilityId,
>)
    ensures
        r@ == missing_of(required@, grants@),
{
    let ghost keep = |c: CapabilityId| !covered(grants@, c@);
    let mut missing: Vec<CapabilityId> = Vec::new();
    let mut i: usize = 0;
    proof {
        reveal(Seq::filter);
    }
    while i < required.len()
        invariant
            i <= required.len(),
            keep == (|c: CapabilityId| !covered(grants@, c@)),
            missing@ == required@.take(i as int).filter(keep),
        decreases required.len() - i,
    {
        proof {
            reveal(Seq::filter);
            assert(required@.take(i + 1).drop_last() =~= required@.take(i as int));
        }
        if !is_covered(grants, &required[i]) {
            missing.push(required[i].clone());
        }
        i = i + 1;
    }
    assert(required@.take(i as int) =~= required@);
    missing
}

/// Law: nothing is missing exactly where every required capability has a grant.
pub proof fn law_missing_is_empty_iff_all_covered(
    required: Seq<CapabilityId>,
    grants: Seq<InstallationGrant>,
)
    ensures
        missing_of(required, grants).len() == 0 <==> forall|i: int|
            0 <= i < required.len() ==> covered(grants, (#[trigger] required[i])@),
    decreases required.len(),
{
    reveal(Seq::filter);
    let keep = |c: CapabilityId| !covered(grants, c@);
    if required.len() > 0 {
        let init = required.drop_last();
        law_missing_is_empty_iff_all_covered(init, grants);
        assert forall|i: int| 0 <= i < init.len() implies init[i] == required[i] by {}
        if missing_of(required, grants).len() == 0 {
            assert(covered(grants, required.last()@));
            assert forall|i: int| 0 <= i < required.len() implies covered(
                grants,
                (#[trigger] required[i])@,
            ) by {
                if i < init.len() {
                    assert(covered(grants, init[i]@));
                }
            }
        }
        if forall|i: int| 0 <= i < required.len() ==> covered(grants, (#[trigger] required[i])@) {
            assert(covered(grants, required[required.len() - 1]@));
            assert forall|i: int| 0 <= i < init.len() implies covered(grants, (#[trigger] init[i])@) by {
                assert(covered(grants, required[i]@));
            }
        }
    }
}

/// A copy of a list of capabilities.
pub fn copy_capabilities(list: &Vec<CapabilityId>) -> (r: Vec<CapabilityId>)
    ensures
        r@ == list@,
{
    let mut out: Vec<CapabilityId> = Vec::new();
    let mut i: usize = 0;
    while i < list.len()
        invariant
            i <= list.len(),
            out@ == list@.take(i as int),
        decreases list.len() - i,
    {
        out.push(list[i].clone());
        assert(list@.take(i + 1) =~= list@.take(i as int).push(list@[i as int]));
        i = i + 1;
    }
    assert(list@.take(i as int) =~= list@);
    out
}

/// A copy of a list of grants.
pub fn copy_grants(list: &Vec<InstallationGrant>) -> (r: Vec<InstallationGrant>)
    ensures
        r@ == list@,
{
    let mut out: Vec<InstallationGrant> = Vec::new();
    let mut i: usize = 0;
    while i < list.len()
        invariant
            i <= list.len(),
            out@ == list@.take(i as int),
        decreases list.len() - i,
    {
        out.push(list[i].clone());
        assert(list@.take(i + 1) =~= list@.take(i as int).push(list@[i as int]));
        i = i + 1;
    }
    assert(list@.take(i as int) =~= list@);
    out
}

/// The resource of the host that a grant opens, where it opens one.
pub open spec fn wasi_of(g: InstallationGrant) -> Option<WasiGrant> {
    match g.scope {
        GrantScope::WasiPreopen { guest_path, host_path, read, write } => Some(
            WasiGrant::Preopen { guest_path, host_path, read, write },
        ),
        GrantScope::WasiEnv { key, value } => Some(WasiGrant::Env { key, value }),
        GrantScope::Unscoped => None,
        GrantScope::Action { name } => None,
    }
}

/// The resources of the host that grants open, in order.
pub open spec fn wasi_grants_of(grants: Seq<InstallationGrant>) -> Seq<WasiGrant>
    decreases grants.len(),
{
    if grants.len() == 0 {
        Seq::empty()
    } else {
        match wasi_of(grants.last()) {
            Some(w) => wasi_grants_of(grants.drop_last()).push(w),
            None => wasi_grants_of(grants.drop_last()),
        }
    }
}

/// The resources of the host that grants open.
pub fn wasi_grants(grants: &Vec<InstallationGrant>) -> (r: Vec<WasiGrant>)
    ensures
        r@ == wasi_grants_of(grants@),
{
    let mut out: Vec<WasiGrant> = Vec::new();
    let mut i: usize = 0;
    while i < grants.len()
        invariant
            i <= grants.len(),
            out@ == wasi_grants_of(grants@.take(i as int)),
        decreases grants.len() - i,
    {
        assert(grants@.take(i + 1).drop_last() =~= grants@.take(i as int));
        match &grants[i].scope {
            GrantScope::WasiPreopen { guest_path, host_path, read, write } => {
                out.push(
                    WasiGrant::Preopen {
                        guest_path: guest_path.clone(),
                        host_path: host_path.clone(),
                        read: *read,
                        write: *write,
                    },
                );
            },
            GrantScope::WasiEnv { key, value } => {
                out.push(WasiGrant::Env { key: key.clone(), value: value.clone() });
            },
            GrantScope::Unscoped => {},
            GrantScope::Action { .. } => {},
        }
        i = i + 1;
    }
    assert(grants@.take(i as int) =~= grants@);
    out
}

/// The grants as the audit log shows them, in order.
pub open spec fn shapes_match(shapes: Seq<GrantAuditShape>, grants: Seq<InstallationGrant>) -> bool {
    &&& shapes.len() == grants.len()
    &&& forall|i: int| 0 <= i < grants.len() ==> (#[trigger] shapes[i])@ == grants[i].shape()
}

/// The grants as the audit log shows them.
pub fn audit_shapes(grants: &Vec<InstallationGrant>) -> (r: Vec<GrantAuditShape>)
    ensures
        shapes_match(r@, grants@),
{
    let mut out: Vec<GrantAuditShape> = Vec::new();
    let mut i: usize = 0;
    while i < grants.len()
        invariant
            i <= grants.len(),
            out@.len() == i,
            forall|j: int| 0 <= j < i ==> (#[trigger] out@[j])@ == grants@[j].shape(),
        decreases grants.len() - i,
    {
        out.push(grants[i].audit_shape());
        i = i + 1;
    }
    out
}

/// Why a component's account of itself is refused. `verdict` is what the
/// domain's grammar says of its identifier.
pub open spec fn identity_fault(d: GuestComponentDescriptor, verdict: Result<(), DomainError>) -> Option<
    &'static str,
> {
    if verdict is Err {
        Some("component-id is malformed")
    } else if d.display_name@.len() == 0 || contract::byte_len(d.display_name@) > MAX_DISPLAY_TEXT_LEN {
        Some("display-name is empty or exceeds the host-side limit")
    } else {
        None
    }
}

/// Why a component's account of itself is refused.
pub fn check_identity(d: &GuestComponentDescriptor, verdict: &Result<(), DomainError>) -> (r: Option<
    &'static str,
>)
    ensures
        r == identity_fault(*d, *verdict),
{
    match verdict {
        Err(_) => Some("component-id is malformed"),
        Ok(_) => {
            if d.display_name.as_str().is_empty() || d.display_name.as_str().as_bytes().len()
                > MAX_DISPLAY_TEXT_LEN {
                Some("display-name is empty or exceeds the host-side limit")
            } else {
                None
            }
        },
    }
}

/// Why a web manifest is refused: it promises what the binary lacks, or lists
/// more assets than the host takes.
pub open spec fn manifest_fault(
    manifest: Option<WebManifestData>,
    surface: ContractSurface,
    max_assets: usize,
) -> Option<&'static str> {
    match manifest {
        None => None,
        Some(m) => if m.features.static_assets && !surface.exports_name("assets"@) {
            Some("web descriptor declares static-assets but the binary lacks the assets interface")
        } else if m.features.backend_actions && !surface.exports_name("actions"@) {
            Some("web descriptor declares backend-actions but the binary lacks the actions interface")
        } else if m.assets@.len() > max_assets {
            Some("web asset manifest exceeds the host-side asset limit")
        } else {
            None
        },
    }
}

/// Why a web manifest is refused.
pub fn validate_manifest(
    manifest: &Option<WebManifestData>,
    surface: &ContractSurface,
    max_assets: usize,
) -> (r: Option<&'static str>)
    ensures
        r == manifest_fault(*manifest, *surface, max_assets),
{
    match manifest {
        None => None,
        Some(m) => {
            if m.features.static_assets && !surface.exports_web_assets() {
                Some("web descriptor declares static-assets but the binary lacks the assets interface")
            } else if m.features.backend_actions && !surface.exports_web_actions() {
                Some("web descriptor declares backend-actions but the binary lacks the actions interface")
            } else if m.assets.len() > max_assets {
                Some("web asset manifest exceeds the host-side asset limit")
            } else {
                None
            }
        },
    }
}

/// Law: one more requirement is missing exactly where no grant names it, and is
/// then the last; nothing is missing where nothing is required.
pub proof fn law_missing_grows_by_what_no_grant_names(
    required: Seq<CapabilityId>,
    c: CapabilityId,
    grants: Seq<InstallationGrant>,
)
    ensures
        missing_of(Seq::empty(), grants).len() == 0,
        (exists|i: int| 0 <= i < grants.len() && (#[trigger] grants[i]).capability@ == c@) ==> missing_of(
            required.push(c),
            grants,
        ) == missing_of(required, grants),
        !(exists|i: int| 0 <= i < grants.len() && (#[trigger] grants[i]).capability@ == c@) ==> missing_of(
            required.push(c),
            grants,
        ) == missing_of(required, grants).push(c),
{
    reveal(Seq::filter);
    assert(required.push(c).drop_last() =~= required);
}

/// Law: a capability is missing exactly where it is required and no grant names
/// it.
pub proof fn law_missing_are_the_uncovered_ones(
    required: Seq<CapabilityId>,
    grants: Seq<InstallationGrant>,
    c: CapabilityId,
)
    ensures
        missing_of(required, grants).contains(c) <==> required.contains(c) && forall|i: int|
            0 <= i < grants.len() ==> (#[trigger] grants[i]).capability@ != c@,
    decreases required.len(),
{
    reveal(Seq::filter);
    let missing = missing_of(required, grants);
    if required.len() > 0 {
        let init = required.drop_last();
        let last = required.last();
        law_missing_are_the_uncovered_ones(init, grants, c);
        law_missing_grows_by_what_no_grant_names(init, last, grants);
        assert(init.push(last) =~= required);
        let before = missing_of(init, grants);
        if required.contains(c) && !init.contains(c) {
            let i = choose|i: int| 0 <= i < required.len() && required[i] == c;
            if i < init.len() {
                assert(init[i] == c);
            }
            assert(c == last);
        }
        if init.contains(c) {
            let i = choose|i: int| 0 <= i < init.len() && init[i] == c;
            assert(required[i] == c);
        }
        assert(required[required.len() - 1] == last);
        if missing.contains(c) {
            let i = choose|i: int| 0 <= i < missing.len() && missing[i] == c;
            if i < before.len() {
                assert(before[i] == c);
            }
        }
        if before.contains(c) {
            let i = choose|i: int| 0 <= i < before.len() && before[i] == c;
            assert(missing[i] == c);
        }
        if missing == before.push(last) {
            assert(missing[missing.len() - 1] == last);
        }
    } else {
        assert(missing.len() == 0);
    }
}

/// Law: each grant of a directory or of an environment variable opens that
/// resource of the host, as it was granted and in its turn; other grants open none.
pub proof fn law_host_resources_follow_the_grants(grants: Seq<InstallationGrant>, g: InstallationGrant)
    ensures
        wasi_grants_of(Seq::empty()).len() == 0,
        g.scope is Unscoped || g.scope is Action ==> wasi_grants_of(grants.push(g)) == wasi_grants_of(grants),
        g.scope matches GrantScope::WasiPreopen { guest_path, host_path, read, write } ==> wasi_grants_of(
            grants.push(g),
        ) == wasi_grants_of(grants).push(WasiGrant::Preopen { guest_path, host_path, read, write }),
        g.scope matches GrantScope::WasiEnv { key, value } ==> wasi_grants_of(grants.push(g)) == wasi_grants_of(
            grants,
        ).push(WasiGrant::Env { key, value }),
{
    assert(grants.push(g).drop_last() =~= grants);
}

/// Law: the audit log shows every grant, in order, each as its own shape.
pub proof fn law_every_grant_is_shown(shapes: Seq<GrantAuditShape>, grants: Seq<InstallationGrant>, i: int)
    requires
        shapes_match(shapes, grants),
        0 <= i < grants.len(),
    ensures
        shapes.len() == grants.len(),
        shapes[i].capability@ == grants[i].capability@,
        shapes[i].env_value_redacted <==> grants[i].scope is WasiEnv,
        grants[i].scope is Unscoped ==> shapes[i].scope_kind@ == "unscoped"@,
        grants[i].scope matches GrantScope::WasiPreopen { guest_path, host_path, read, write }
            ==> shapes[i].scope_kind@ == "preopen:"@ + guest_path@,
        grants[i].scope matches GrantScope::WasiEnv { key, value } ==> shapes[i].scope_kind@ == "env:"@ + key@,
        grants[i].scope matches GrantScope::Action { name } ==> shapes[i].scope_kind@ == "action:"@ + name@,
{
    assert(shapes[i]@ == grants[i].shape());
}

/// An import with a namespace that this host knows and a capability text that the
/// domain takes.
pub open spec fn import_is_served(import: Seq<char>, verdict: Result<(), DomainError>) -> bool {
    &&& verdict is Ok
    &&& "wasi:"@.is_prefix_of(import) || "operune:"@.is_prefix_of(import)
}

/// Law: imports are planned for exactly where each of them is served, and the plan
/// then asks, import by import, for the text before its version.
pub proof fn law_imports_are_planned_where_all_are_served(
    surface: ContractSurface,
    verdicts: Seq<Result<(), DomainError>>,
    r: Result<Vec<CapabilityId>, ApplicationError>,
)
    requires
        classifies(surface, verdicts, r),
        verdicts.len() == surface.imports@.len(),
    ensures
        r is Ok <==> forall|i: int|
            0 <= i < surface.imports@.len() ==> import_is_served(#[trigger] surface.imports@[i]@, verdicts[i]),
        r matches Ok(caps) ==> {
            &&& caps@.len() == surface.imports@.len()
            &&& forall|i: int|
                0 <= i < caps@.len() ==> {
                    let cap = (#[trigger] caps@[i])@;
                    let import = surface.imports@[i]@;
                    &&& cap.is_prefix_of(import)
                    &&& !cap.contains('@')
                    &&& cap.len() < import.len() ==> import[cap.len() as int] == '@'
                }
        },
        r matches Err(e) ==> e is Domain || e is UnsupportedCapability,
        r matches Err(ApplicationError::Domain(e)) ==> exists|k: int|
            0 <= k < verdicts.len() && #[trigger] verdicts[k] == Err::<(), DomainError>(e),
        r matches Err(ApplicationError::UnsupportedCapability(c)) ==> exists|k: int| {
            &&& 0 <= k < surface.imports@.len()
            &&& c@.is_prefix_of((#[trigger] surface.imports@[k])@)
            &&& !"wasi:"@.is_prefix_of(surface.imports@[k]@)
            &&& !"operune:"@.is_prefix_of(surface.imports@[k]@)
        },
{
    assert forall|i: int| 0 <= i < surface.imports@.len() implies import_is_served(
        #[trigger] surface.imports@[i]@,
        verdicts[i],
    ) == import_is_planned(surface.imports@[i]@, verdicts[i]) by {
        law_import_class_is_its_namespace(surface.imports@[i]@);
    }
    match r {
        Ok(caps) => {
            assert forall|i: int| 0 <= i < caps@.len() implies ({
                let cap = (#[trigger] caps@[i])@;
                let import = surface.imports@[i]@;
                &&& cap.is_prefix_of(import)
                &&& !cap.contains('@')
                &&& cap.len() < import.len() ==> import[cap.len() as int] == '@'
            }) by {
                let import = surface.imports@[i]@;
                let cap = caps@[i]@;
                text::law_cut_ends_at_the_first_separator(import, '@');
                assert(cap == text::before_first(import, '@'));
                assert(cap =~= import.subrange(0, cap.len() as int));
            }
        },
        Err(ApplicationError::Domain(e)) => {
            let k = choose|k: int| {
                &&& 0 <= k < surface.imports@.len()
                &&& #[trigger] planned_before(surface.imports@, verdicts, k)
                &&& verdicts[k] == Err::<(), DomainError>(e)
            };
            assert(verdicts[k] == Err::<(), DomainError>(e));
            assert(!import_is_planned(surface.imports@[k]@, verdicts[k]));
        },
        Err(ApplicationError::UnsupportedCapability(c)) => {
            let k = choose|k: int| {
                &&& 0 <= k < surface.imports@.len()
                &&& #[trigger] planned_before(surface.imports@, verdicts, k)
                &&& verdicts[k] is Ok
                &&& ImportClass::class_of(surface.imports@[k]@) == ImportClass::Unsupported
                &&& c@ == text::before_first(surface.imports@[k]@, '@')
            };
            let import = surface.imports@[k]@;
            text::law_cut_ends_at_the_first_separator(import, '@');
            assert(c@ =~= import.subrange(0, c@.len() as int));
            law_import_class_is_its_namespace(import);
            assert(!import_is_planned(surface.imports@[k]@, verdicts[k]));
        },
        Err(_) => {},
    }
}

/// Law: of two imports that cannot be planned for, the earlier one decides.
pub proof fn law_first_unserved_import_decides(
    surface: ContractSurface,
    verdicts: Seq<Result<(), DomainError>>,
    r: Result<Vec<CapabilityId>, ApplicationError>,
    k: int,
)
    requires
        classifies(surface, verdicts, r),
        verdicts.len() == surface.imports@.len(),
        0 <= k < surface.imports@.len(),
        forall|i: int| 0 <= i < k ==> import_is_served(#[trigger] surface.imports@[i]@, verdicts[i]),
        !import_is_served(surface.imports@[k]@, verdicts[k]),
    ensures
        verdicts[k] matches Err(e) ==> r == Err::<Vec<CapabilityId>, ApplicationError>(
            ApplicationError::Domain(e),
        ),
        verdicts[k] is Ok ==> (r matches Err(ApplicationError::UnsupportedCapability(c)) && c@.is_prefix_of(
            surface.imports@[k]@,
        )),
{
    let imports = surface.imports@;
    assert forall|i: int| 0 <= i < imports.len() implies import_is_served(#[trigger] imports[i]@, verdicts[i])
        == import_is_planned(imports[i]@, verdicts[i]) by {
        law_import_class_is_its_namespace(imports[i]@);
    }
    assert(!import_is_planned(imports[k]@, verdicts[k]));
    assert forall|j: int| 0 <= j < imports.len() && #[trigger] planned_before(imports, verdicts, j)
        && !import_is_planned(imports[j]@, verdicts[j]) implies j == k by {
        if j > k {
            assert(import_is_planned(imports[k]@, verdicts[k]));
        }
        if j < k {
            assert(import_is_served(imports[j]@, verdicts[j]));
        }
    }
    match r {
        Ok(caps) => {},
        Err(ApplicationError::Domain(e)) => {
            let j = choose|j: int| {
                &&& 0 <= j < imports.len()
                &&& #[trigger] planned_before(imports, verdicts, j)
                &&& verdicts[j] == Err::<(), DomainError>(e)
            };
            assert(!import_is_planned(imports[j]@, verdicts[j]));
        },
        Err(ApplicationError::UnsupportedCapability(c)) => {
            let j = choose|j: int| {
                &&& 0 <= j < imports.len()
                &&& #[trigger] planned_before(imports, verdicts, j)
                &&& verdicts[j] is Ok
                &&& ImportClass::class_of(imports[j]@) == ImportClass::Unsupported
                &&& c@ == text::before_first(imports[j]@, '@')
            };
            assert(!import_is_planned(imports[j]@, verdicts[j]));
            text::law_cut_ends_at_the_first_separator(imports[k]@, '@');
            assert(c@ =~= imports[k]@.subrange(0, c@.len() as int));
        },
        Err(_) => {},
    }
}

/// Law: a component's account of itself is refused exactly where the domain
/// refuses its identifier, or its display name is empty or over the limit.
pub proof fn law_identity_is_refused_only_for_cause(d: GuestComponentDescriptor, verdict: Result<(), DomainError>)
    ensures
        identity_fault(d, verdict) is None <==> verdict is Ok && 0 < d.display_name@.len()
            && vstd::utf8::encode_utf8(d.display_name@).len() <= 2048,
        verdict is Err ==> identity_fault(d, verdict) == Some("component-id is malformed"),
        verdict is Ok && identity_fault(d, verdict) is Some ==> identity_fault(d, verdict) == Some(
            "display-name is empty or exceeds the host-side limit",
        ),
{
}

/// Law: a manifest is refused exactly where it promises assets or actions that the
/// binary does not export, or lists more assets than the host takes; a component
/// without one is not refused.
pub proof fn law_manifest_is_refused_only_for_cause(
    manifest: Option<WebManifestData>,
    surface: ContractSurface,
    max_assets: usize,
)
    ensures
        manifest is None ==> manifest_fault(manifest, surface, max_assets) is None,
        manifest matches Some(m) ==> (manifest_fault(manifest, surface, max_assets) is None <==> {
            &&& m.features.static_assets ==> exists|i: int|
                0 <= i < surface.exports@.len() && #[trigger] surface.exports@[i]@ == "assets"@
            &&& m.features.backend_actions ==> exists|i: int|
                0 <= i < surface.exports@.len() && #[trigger] surface.exports@[i]@ == "actions"@
            &&& m.assets@.len() <= max_assets
        }),
        manifest matches Some(m) ==> m.features.static_assets && !surface.exports_name("assets"@)
            ==> manifest_fault(manifest, surface, max_assets) == Some(
            "web descriptor declares static-assets but the binary lacks the assets interface",
        ),
        manifest matches Some(m) ==> !m.features.static_assets && m.features.backend_actions
            && !surface.exports_name("actions"@) ==> manifest_fault(manifest, surface, max_assets) == Some(
            "web descriptor declares backend-actions but the binary lacks the actions interface",
        ),
        manifest matches Some(m) ==> !m.features.static_assets && !m.features.backend_actions
            && m.assets@.len() > max_assets ==> manifest_fault(manifest, surface, max_assets) == Some(
            "web asset manifest exceeds the host-side asset limit",
        ),
{
    law_exports_are_found_by_name(surface, "assets"@);
    law_exports_are_found_by_name(surface, "actions"@);
}

} // verus!
