//! The installations in service.
//!
//! They are kept in a snapshot that is never changed but replaced as a whole, so
//! that a reader sees an installation either before a switch or after it.
use std::sync::Arc;

use arc_swap::ArcSwap;
use vstd::prelude::*;

use crate::values::{ComponentId, ComponentVersion, ContentDigest, InstallationId};
use crate::web_path::WebManifestData;

verus! {

/// An installation in service.
#[derive(Debug, PartialEq, Eq)]
pub struct ActiveInstallation {
    pub installation_id: InstallationId,
    pub component_id: ComponentId,
    pub version: ComponentVersion,
    pub digest: ContentDigest,
}

impl Clone for ActiveInstallation {
    fn clone(&self) -> (r: Self)
        ensures
            r == *self,
    {
        ActiveInstallation {
            installation_id: self.installation_id,
            component_id: self.component_id.clone(),
            version: self.version,
            digest: self.digest,
        }
    }
}

/// What is in service for an installation: which bytes, the handle under which
/// the host runs them, and what they show on the web.
#[derive(Debug)]
pub struct ActiveEntry {
    pub installation: ActiveInstallation,
    pub runtime: u64,
    pub manifest: Option<WebManifestData>,
}

/// A snapshot of the installations in service, in an `arc_swap::ArcSwap`, which
/// replaces it in one step. Only what it holds has a name here.
#[verifier::external_body]
pub struct SnapshotCell {
    current: ArcSwap<Vec<(InstallationId, Arc<ActiveEntry>)>>,
}

/// The snapshot that the cell holds.
pub uninterp spec fn snapshot_held(cell: SnapshotCell) -> Seq<(InstallationId, Arc<ActiveEntry>)>;

/// `arc_swap::ArcSwapAny::from_pointee`: the cell holds what it was made with.
#[verifier::external_body]
fn cell_new(first: Vec<(InstallationId, Arc<ActiveEntry>)>) -> (r: SnapshotCell)
    ensures
        snapshot_held(r) == first@,
{
    SnapshotCell { current: ArcSwap::from_pointee(first) }
}

/// `arc_swap::ArcSwapAny::load_full`: gives out what the cell holds.
#[verifier::external_body]
fn cell_load(cell: &SnapshotCell) -> (r: Arc<Vec<(InstallationId, Arc<ActiveEntry>)>>)
    ensures
        r@ == snapshot_held(*cell),
{
    cell.current.load_full()
}

/// `arc_swap::ArcSwapAny::store`: the cell then holds what was stored. The
/// outside function asks for shared access only; that others could store at the
/// same time is kept out here by asking for the cell alone.
#[verifier::external_body]
fn cell_store(cell: &mut SnapshotCell, next: Vec<(InstallationId, Arc<ActiveEntry>)>)
    ensures
        snapshot_held(*final(cell)) == next@,
{
    cell.current.store(Arc::new(next))
}

/// The installations ascend strictly, so none occurs twice.
spec fn ascending(s: Seq<(InstallationId, Arc<ActiveEntry>)>) -> bool {
    forall|i: int, j: int|
        0 <= i < j < s.len() ==> (#[trigger] s[i]).0.value < (#[trigger] s[j]).0.value
}

spec fn is_at(s: Seq<(InstallationId, Arc<ActiveEntry>)>, installation: InstallationId, i: int) -> bool {
    0 <= i < s.len() && s[i].0 == installation
}

spec fn found(s: Seq<(InstallationId, Arc<ActiveEntry>)>, installation: InstallationId) -> Option<
    Arc<ActiveEntry>,
> {
    if exists|i: int| is_at(s, installation, i) {
        Some(s[choose|i: int| is_at(s, installation, i)].1)
    } else {
        None
    }
}

proof fn lemma_found_at(s: Seq<(InstallationId, Arc<ActiveEntry>)>, i: int)
    requires
        ascending(s),
        0 <= i < s.len(),
    ensures
        found(s, s[i].0) == Some(s[i].1),
{
    assert(is_at(s, s[i].0, i));
    let j = choose|j: int| is_at(s, s[i].0, j);
    assert(j == i);
}

/// A copy of a snapshot in which an installation has another entry, or none.
fn replaced(
    s: &Vec<(InstallationId, Arc<ActiveEntry>)>,
    installation: InstallationId,
    entry: Option<Arc<ActiveEntry>>,
) -> (r: Vec<(InstallationId, Arc<ActiveEntry>)>)
    requires
        ascending(s@),
    ensures
        ascending(r@),
        found(r@, installation) == entry,
        forall|x: InstallationId| x != installation ==> #[trigger] found(r@, x) == found(s@, x),
{
    let mut out: Vec<(InstallationId, Arc<ActiveEntry>)> = Vec::new();
    let mut i: usize = 0;
    while i < s.len() && s[i].0.value < installation.value
        invariant
            ascending(s@),
            i <= s@.len(),
            out@ == s@.take(i as int),
            forall|j: int| 0 <= j < i ==> (#[trigger] s@[j]).0.value < installation.value,
        decreases s@.len() - i,
    {
        out.push((s[i].0, Arc::clone(&s[i].1)));
        i = i + 1;
        assert(out@ =~= s@.take(i as int));
    }
    let ghost before = i as int;
    let present: bool = i < s.len() && s[i].0.value == installation.value;
    if present {
        i = i + 1;
    }
    let ghost rest = i as int;
    let ghost given = entry;
    match entry {
        Some(entry) => {
            out.push((installation, entry));
        },
        None => {},
    }
    let ghost head = out@;
    while i < s.len()
        invariant
            0 <= rest <= i <= s@.len(),
            out@ == head + s@.subrange(rest, i as int),
        decreases s@.len() - i,
    {
        out.push((s[i].0, Arc::clone(&s[i].1)));
        i = i + 1;
        assert(out@ =~= head + s@.subrange(rest, i as int));
    }
    proof {
        let tail = s@.subrange(rest, s@.len() as int);
        assert forall|j: int| 0 <= j < tail.len() implies (#[trigger] tail[j]).0.value > installation.value by {
            assert(tail[j] == s@[rest + j]);
            if !present && before < s@.len() {
                assert(s@[before].0.value >= installation.value);
                assert(s@[before].0.value != installation.value);
                if j > 0 {
                    assert(s@[before].0.value < s@[rest + j].0.value);
                }
            } else if present {
                assert(s@[before].0.value < s@[rest + j].0.value);
            }
        }
        assert(ascending(out@)) by {
            assert forall|a: int, b: int| 0 <= a < b < out@.len() implies (#[trigger] out@[a]).0.value < (
            #[trigger] out@[b]).0.value by {
                if b >= head.len() {
                    assert(out@[b] == tail[b - head.len()]);
                    if a >= head.len() {
                        assert(out@[a] == tail[a - head.len()]);
                        assert(out@[a] == s@[rest + a - head.len()]);
                        assert(out@[b] == s@[rest + b - head.len()]);
                    } else if a < before {
                        assert(out@[a] == s@[a]);
                    }
                } else {
                    assert(out@[a] == head[a] && out@[b] == head[b]);
                    if a < before {
                        assert(head[a] == s@[a]);
                    }
                    if b < before {
                        assert(head[b] == s@[b]);
                    }
                }
            }
        }
        match given {
            Some(entry) => {
                assert(out@[before] == (installation, entry));
                lemma_found_at(out@, before);
            },
            None => {
                assert forall|j: int| !is_at(out@, installation, j) by {
                    if 0 <= j < out@.len() {
                        if j < before {
                            assert(out@[j] == s@[j]);
                        } else {
                            assert(out@[j] == tail[j - head.len()]);
                        }
                    }
                }
            },
        }
        assert forall|x: InstallationId| x != installation implies #[trigger] found(out@, x) == found(s@, x) by {
            if exists|j: int| is_at(s@, x, j) {
                let j = choose|j: int| is_at(s@, x, j);
                lemma_found_at(s@, j);
                assert(x.value != installation.value);
                if j < before {
                    assert(out@[j] == s@[j]);
                    lemma_found_at(out@, j);
                } else {
                    assert(j >= rest);
                    assert(tail[j - rest] == s@[j]);
                    assert(out@[head.len() + j - rest] == s@[j]);
                    lemma_found_at(out@, head.len() + j - rest);
                }
            } else if exists|j: int| is_at(out@, x, j) {
                let j = choose|j: int| is_at(out@, x, j);
                if j < before {
                    assert(out@[j] == s@[j]);
                    assert(is_at(s@, x, j));
                } else if j >= head.len() {
                    assert(out@[j] == s@[rest + j - head.len()]);
                    assert(is_at(s@, x, rest + j - head.len()));
                } else {
                    assert(out@[j].0 == installation);
                }
            }
        }
    }
    out
}

/// The installations in service.
pub struct ActiveRuntimeRegistry {
    cell: SnapshotCell,
}

impl ActiveRuntimeRegistry {
    pub closed spec fn wf(&self) -> bool {
        ascending(snapshot_held(self.cell))
    }

    /// The installations in service, with what is in service for each.
    pub closed spec fn entries(&self) -> Seq<(InstallationId, Arc<ActiveEntry>)> {
        snapshot_held(self.cell)
    }

    /// What is in service for an installation.
    pub closed spec fn entry(&self, installation: InstallationId) -> Option<Arc<ActiveEntry>> {
        found(snapshot_held(self.cell), installation)
    }

    /// Law: an installation is in service at most once, and the list holds exactly
    /// those that are, in the order of their identifiers.
    pub proof fn law_one_entry_per_installation(&self)
        requires
            self.wf(),
        ensures
            forall|i: int, j: int|
                0 <= i < j < self.entries().len() ==> (#[trigger] self.entries()[i]).0.value < (
                #[trigger] self.entries()[j]).0.value,
            forall|i: int|
                0 <= i < self.entries().len() ==> self.entry((#[trigger] self.entries()[i]).0) == Some(
                    self.entries()[i].1,
                ),
            forall|x: InstallationId|
                (#[trigger] self.entry(x)) matches Some(e) ==> self.entries().contains((x, e)),
    {
        let s = self.entries();
        assert forall|i: int| 0 <= i < s.len() implies self.entry((#[trigger] s[i]).0) == Some(s[i].1) by {
            lemma_found_at(s, i);
        }
        assert forall|x: InstallationId| (#[trigger] self.entry(x)) is Some implies s.contains(
            (x, self.entry(x)->0),
        ) by {
            let i = choose|i: int| is_at(s, x, i);
            assert(s[i] == (x, self.entry(x)->0));
        }
    }

    /// None is in service.
    pub fn new() -> (r: ActiveRuntimeRegistry)
        ensures
            r.wf(),
            r.entries().len() == 0,
            forall|x: InstallationId| #[trigger] r.entry(x) is None,
    {
        ActiveRuntimeRegistry { cell: cell_new(Vec::new()) }
    }

    /// What is in service for an installation.
    pub fn get(&self, installation: InstallationId) -> (r: Option<Arc<ActiveEntry>>)
        requires
            self.wf(),
        ensures
            r == self.entry(installation),
    {
        let snapshot = cell_load(&self.cell);
        let mut i: usize = 0;
        while i < snapshot.len()
            invariant
                self.wf(),
                snapshot@ == snapshot_held(self.cell),
                i <= snapshot@.len(),
                forall|j: int| 0 <= j < i ==> (#[trigger] snapshot@[j]).0 != installation,
            decreases snapshot@.len() - i,
        {
            if snapshot[i].0.value == installation.value {
                proof {
                    lemma_found_at(snapshot@, i as int);
                }
                return Some(Arc::clone(&snapshot[i].1));
            }
            i = i + 1;
        }
        None
    }

    /// The installations in service, in ascending order.
    pub fn list(&self) -> (r: Vec<ActiveInstallation>)
        requires
            self.wf(),
        ensures
            r@.len() == self.entries().len(),
            forall|i: int| 0 <= i < r@.len() ==> #[trigger] r@[i] == self.entries()[i].1.installation,
    {
        let snapshot = cell_load(&self.cell);
        let mut out: Vec<ActiveInstallation> = Vec::new();
        let mut i: usize = 0;
        while i < snapshot.len()
            invariant
                snapshot@ == self.entries(),
                i <= snapshot@.len(),
                out@.len() == i,
                forall|j: int| 0 <= j < i ==> #[trigger] out@[j] == snapshot@[j].1.installation,
            decreases snapshot@.len() - i,
        {
            out.push(snapshot[i].1.installation.clone());
            i = i + 1;
        }
        out
    }

    /// Puts bytes in service for an installation, in the place of what was.
    pub fn swap(&mut self, installation: InstallationId, entry: Arc<ActiveEntry>)
        requires
            old(self).wf(),
        ensures
            final(self).wf(),
            final(self).entry(installation) == Some(entry),
            forall|x: InstallationId|
                x != installation ==> #[trigger] final(self).entry(x) == old(self).entry(x),
    {
        let snapshot = cell_load(&self.cell);
        let next = replaced(&snapshot, installation, Some(entry));
        cell_store(&mut self.cell, next);
    }

    /// Takes an installation out of service.
    pub fn remove(&mut self, installation: InstallationId)
        requires
            old(self).wf(),
        ensures
            final(self).wf(),
            final(self).entry(installation) is None,
            forall|x: InstallationId|
                x != installation ==> #[trigger] final(self).entry(x) == old(self).entry(x),
    {
        let snapshot = cell_load(&self.cell);
        let next = replaced(&snapshot, installation, None);
        cell_store(&mut self.cell, next);
    }

    /// What is in service for an installation before something else is put in its
    /// place.
    pub fn take_previous(&self, installation: InstallationId) -> (r: Option<Arc<ActiveEntry>>)
        requires
            self.wf(),
        ensures
            r == self.entry(installation),
    {
        self.get(installation)
    }

    pub fn len(&self) -> (r: usize)
        ensures
            r == self.entries().len(),
    {
        cell_load(&self.cell).len()
    }

    pub fn is_empty(&self) -> (r: bool)
        ensures
            r == (self.entries().len() == 0),
    {
        cell_load(&self.cell).len() == 0
    }
}

} // verus!
