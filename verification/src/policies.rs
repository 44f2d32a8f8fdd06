//! The host's own answers to who may do what: actions, permissions, timers and
//! events. What was not granted is denied.
use vstd::prelude::*;

use crate::model::{ActionDenied, GrantScope, InstallationGrant, RuntimeConfig};
use crate::ports::{CheckpointError, ConfigError, GrantError};
use crate::table::Table;
use crate::text::{chars_of, has_prefix, same_text};
use crate::values::{ByteSize, ComponentVersion, Duration, EventTopic, InstallationId, PermissionName};
use crate::web_path::ActionName;

verus! {

/// The capability under which actions are granted.
pub const WEB_ACTIONS_CAPABILITY: &'static str = "operune:web/actions";

/// The capability under which permissions are granted.
pub const WEB_PERMISSIONS_CAPABILITY: &'static str = "operune:web/permissions";

/// Topics that start so belong to the host.
pub const RESERVED_TOPIC_PREFIX: &'static str = "core.";

/// A grant lets a named thing through: as a whole, or under its name.
pub open spec fn grant_allows(grant: InstallationGrant, capability: Seq<char>, name: Seq<char>) -> bool {
    &&& grant.capability@ == capability
    &&& match grant.scope {
        GrantScope::Unscoped => true,
        GrantScope::Action { name: granted } => granted@ == name,
        GrantScope::WasiPreopen { .. } => false,
        GrantScope::WasiEnv { .. } => false,
    }
}

/// Some grant lets a named thing through.
pub open spec fn allowed(grants: Seq<InstallationGrant>, capability: Seq<char>, name: Seq<char>) -> bool {
    exists|i: int| 0 <= i < grants.len() && grant_allows(#[trigger] grants[i], capability, name)
}

/// Some grant lets a named thing through.
fn any_allows(grants: &Vec<InstallationGrant>, capability: &str, name: &str) -> (r: bool)
    ensures
        r == allowed(grants@, capability@, name@),
{
    let mut i: usize = 0;
    while i < grants.len()
        invariant
            i <= grants@.len(),
            forall|j: int| 0 <= j < i ==> !grant_allows(#[trigger] grants@[j], capability@, name@),
        decreases grants@.len() - i,
    {
        let grant: &InstallationGrant = &grants[i];
        let allows: bool = same_text(grant.capability.as_str(), capability) && match &grant.scope {
            GrantScope::Unscoped => true,
            GrantScope::Action { name: granted } => same_text(granted.as_str(), name),
            GrantScope::WasiPreopen { .. } => false,
            GrantScope::WasiEnv { .. } => false,
        };
        assert(allows == grant_allows(grants@[i as int], capability@, name@));
        if allows {
            return true;
        }
        i = i + 1;
    }
    false
}

/// An action that a page asks for.
#[derive(Debug)]
pub struct ActionContext {
    pub installation_id: InstallationId,
    pub version: ComponentVersion,
    pub action: ActionName,
    pub body_size: ByteSize,
}

/// How many actions an installation has taken since counting began.
#[derive(Debug, Clone, Copy, PartialEq, Eq, Structural)]
pub struct RateWindow {
    pub start: Duration,
    pub count: u32,
}

/// The window as it stands at `now`.
pub open spec fn rate_at(window: Option<RateWindow>, now: Duration) -> RateWindow {
    match window {
        Some(w) => if now.nanos - w.start.nanos >= crate::web_quota::RATE_WINDOW_NANOS {
            RateWindow { start: now, count: 0 }
        } else {
            w
        },
        None => RateWindow { start: now, count: 0 },
    }
}

/// The action policy, kept in this process: grant, body size and rate.
#[derive(Debug)]
pub struct InProcessActionPolicy {
    windows: Table<RateWindow>,
}

impl InProcessActionPolicy {
    pub closed spec fn wf(&self) -> bool {
        self.windows.wf()
    }

    /// The actions of an installation, where it has taken any.
    pub closed spec fn window(&self, installation: InstallationId) -> Option<RateWindow> {
        if self.windows@.dom().contains(installation.value) {
            Some(self.windows@[installation.value])
        } else {
            None
        }
    }

    pub fn new() -> (r: InProcessActionPolicy)
        ensures
            r.wf(),
            forall|x: InstallationId| #[trigger] r.window(x) is None,
    {
        InProcessActionPolicy { windows: Table::new() }
    }

    /// Why an action is turned away before it is counted.
    pub open spec fn fault(
        context: ActionContext,
        config: Result<RuntimeConfig, ConfigError>,
        grants: Result<Vec<InstallationGrant>, GrantError>,
    ) -> Option<ActionDenied> {
        if config is Err || grants is Err {
            Some(ActionDenied::Unknown)
        } else if !allowed(grants->Ok_0@, WEB_ACTIONS_CAPABILITY@, context.action@) {
            Some(ActionDenied::NotGranted)
        } else if context.body_size.bytes > config->Ok_0.max_action_body_bytes.bytes {
            Some(ActionDenied::BodyTooLarge)
        } else {
            None
        }
    }

    fn check_grants(context: &ActionContext, grants: &Vec<InstallationGrant>) -> (r: Result<
        (),
        ActionDenied,
    >)
        ensures
            r == if allowed(grants@, WEB_ACTIONS_CAPABILITY@, context.action@) {
                Ok::<(), ActionDenied>(())
            } else {
                Err(ActionDenied::NotGranted)
            },
    {
        if any_allows(grants, WEB_ACTIONS_CAPABILITY, context.action.as_str()) {
            Ok(())
        } else {
            Err(ActionDenied::NotGranted)
        }
    }

    fn check_body(context: &ActionContext, config: &RuntimeConfig) -> (r: Result<(), ActionDenied>)
        ensures
            r == if context.body_size.bytes > config.max_action_body_bytes.bytes {
                Err::<(), ActionDenied>(ActionDenied::BodyTooLarge)
            } else {
                Ok(())
            },
    {
        if context.body_size.exceeds(config.max_action_body_bytes) {
            Err(ActionDenied::BodyTooLarge)
        } else {
            Ok(())
        }
    }

    fn check_rate(&mut self, installation: InstallationId, limit: u32, now: Duration) -> (r: Result<
        (),
        ActionDenied,
    >)
        requires
            old(self).wf(),
        ensures
            final(self).wf(),
            forall|x: InstallationId|
                x != installation ==> #[trigger] final(self).window(x) == old(self).window(x),
            ({
                let window = rate_at(old(self).window(installation), now);
                if window.count >= limit {
                    &&& r == Err::<(), ActionDenied>(ActionDenied::RateLimited)
                    &&& final(self).window(installation) == Some(window)
                } else {
                    &&& r == Ok::<(), ActionDenied>(())
                    &&& final(self).window(installation) == Some(
                        RateWindow { count: (window.count + 1) as u32, ..window },
                    )
                }
            }),
    {
        let mut window: RateWindow = match self.windows.get(installation.value) {
            Some(window) => *window,
            None => RateWindow { start: now, count: 0 },
        };
        if now.nanos >= window.start.nanos && now.nanos - window.start.nanos
            >= crate::web_quota::RATE_WINDOW_NANOS {
            window.start = now;
            window.count = 0;
        }
        if window.count >= limit {
            self.windows.insert(installation.value, window);
            return Err(ActionDenied::RateLimited);
        }
        window.count = window.count.saturating_add(1);
        self.windows.insert(installation.value, window);
        Ok(())
    }

    /// Checks an action, at the time `now` of a clock that never goes back.
    /// `config` and `grants` are what the host's configuration and its grant
    /// store said. Only an action that is granted and fits is counted.
    pub fn check(
        &mut self,
        context: &ActionContext,
        config: &Result<RuntimeConfig, ConfigError>,
        grants: &Result<Vec<InstallationGrant>, GrantError>,
        now: Duration,
    ) -> (r: Result<(), ActionDenied>)
        requires
            old(self).wf(),
        ensures
            final(self).wf(),
            forall|x: InstallationId|
                x != context.installation_id ==> #[trigger] final(self).window(x) == old(self).window(x),
            match Self::fault(*context, *config, *grants) {
                Some(denied) => {
                    &&& r == Err::<(), ActionDenied>(denied)
                    &&& final(self).window(context.installation_id) == old(self).window(
                        context.installation_id,
                    )
                },
                None => {
                    let window = rate_at(old(self).window(context.installation_id), now);
                    if window.count >= config->Ok_0.max_actions_per_minute {
                        &&& r == Err::<(), ActionDenied>(ActionDenied::RateLimited)
                        &&& final(self).window(context.installation_id) == Some(window)
                    } else {
                        &&& r == Ok::<(), ActionDenied>(())
                        &&& final(self).window(context.installation_id) == Some(
                            RateWindow { count: (window.count + 1) as u32, ..window },
                        )
                    }
                },
            },
    {
        let config: &RuntimeConfig = match config {
            Ok(config) => config,
            Err(_) => return Err(ActionDenied::Unknown),
        };
        let grants: &Vec<InstallationGrant> = match grants {
            Ok(grants) => grants,
            Err(_) => return Err(ActionDenied::Unknown),
        };
        match Self::check_grants(context, grants) {
            Ok(_) => {},
            Err(denied) => return Err(denied),
        }
        match Self::check_body(context, config) {
            Ok(_) => {},
            Err(denied) => return Err(denied),
        }
        self.check_rate(context.installation_id, config.max_actions_per_minute, now)
    }
}

/// A permission that a page or a route asks for.
#[derive(Debug)]
pub struct WebPermissionContext {
    pub installation_id: InstallationId,
    pub version: ComponentVersion,
    pub permission: PermissionName,
}

/// Why a permission is denied.
#[derive(Debug, Clone, Copy, PartialEq, Eq, Structural)]
pub enum PermissionDenied {
    NotGranted,
    Unknown,
}

impl PermissionDenied {
    /// The denial in words.
    pub fn message(&self) -> (r: &'static str)
        ensures
            r@ == match *self {
                PermissionDenied::NotGranted => "permission not granted for this installation"@,
                PermissionDenied::Unknown => "permission check failed"@,
            },
    {
        match self {
            PermissionDenied::NotGranted => "permission not granted for this installation",
            PermissionDenied::Unknown => "permission check failed",
        }
    }
}

/// The permission policy, kept in this process.
#[derive(Debug)]
pub struct InProcessWebPermissionPolicy {}

impl InProcessWebPermissionPolicy {
    pub fn new() -> (r: InProcessWebPermissionPolicy)
        ensures
            r == (InProcessWebPermissionPolicy {  }),
    {
        InProcessWebPermissionPolicy {  }
    }

    /// Checks a permission against what the grant store said of the
    /// installation.
    pub fn check_permission(
        &self,
        context: &WebPermissionContext,
        grants: &Result<Vec<InstallationGrant>, GrantError>,
    ) -> (r: Result<(), PermissionDenied>)
        ensures
            r == if grants is Err {
                Err::<(), PermissionDenied>(PermissionDenied::Unknown)
            } else if allowed(grants->Ok_0@, WEB_PERMISSIONS_CAPABILITY@, context.permission@) {
                Ok(())
            } else {
                Err(PermissionDenied::NotGranted)
            },
    {
        match grants {
            Err(_) => Err(PermissionDenied::Unknown),
            Ok(grants) => if any_allows(
                grants,
                WEB_PERMISSIONS_CAPABILITY,
                context.permission.as_str(),
            ) {
                Ok(())
            } else {
                Err(PermissionDenied::NotGranted)
            },
        }
    }
}

/// Which installations may use the scheduler, kept in this process.
#[derive(Debug)]
pub struct InProcessSchedulerGrant {
    granted: Table<()>,
}

impl InProcessSchedulerGrant {
    pub closed spec fn wf(&self) -> bool {
        self.granted.wf()
    }

    /// The numbers of the installations that may use the scheduler.
    pub closed spec fn view(&self) -> Set<u128> {
        self.granted@.dom()
    }

    /// None may, to begin with.
    pub fn new() -> (r: InProcessSchedulerGrant)
        ensures
            r.wf(),
            r@ == Set::<u128>::empty(),
    {
        let r = InProcessSchedulerGrant { granted: Table::new() };
        assert(r@ =~= Set::<u128>::empty());
        r
    }

    pub fn grant(&mut self, installation: InstallationId)
        requires
            old(self).wf(),
        ensures
            final(self).wf(),
            final(self)@ == old(self)@.insert(installation.value),
    {
        self.granted.insert(installation.value, ());
        assert(self@ =~= old(self)@.insert(installation.value));
    }

    pub fn revoke(&mut self, installation: InstallationId)
        requires
            old(self).wf(),
        ensures
            final(self).wf(),
            final(self)@ == old(self)@.remove(installation.value),
    {
        self.granted.remove(installation.value);
        assert(self@ =~= old(self)@.remove(installation.value));
    }

    pub fn granted_count(&self) -> (r: usize)
        requires
            self.wf(),
        ensures
            r == self@.len(),
    {
        self.granted.len()
    }

    /// Whether an installation may use the scheduler. The question never fails
    /// here.
    pub fn scheduler_granted(&self, installation: InstallationId) -> (r: Result<bool, GrantError>)
        requires
            self.wf(),
        ensures
            r == Ok::<bool, GrantError>(self@.contains(installation.value)),
    {
        match self.granted.get(installation.value) {
            Some(_) => Ok(true),
            None => Ok(false),
        }
    }
}

/// Which installations have which topics. The entries lie in ascending order of
/// their installations, and none occurs twice.
#[derive(Debug)]
pub struct TopicGrants {
    entries: Vec<(InstallationId, EventTopic)>,
}

impl TopicGrants {
    pub closed spec fn wf(&self) -> bool {
        &&& forall|i: int, j: int|
            0 <= i < j < self.entries@.len() ==> (#[trigger] self.entries@[i]).0.value <= (
            #[trigger] self.entries@[j]).0.value
        &&& forall|i: int, j: int|
            0 <= i < j < self.entries@.len() ==> !((#[trigger] self.entries@[i]).0 == (
            #[trigger] self.entries@[j]).0 && self.entries@[i].1@ == self.entries@[j].1@)
    }

    pub closed spec fn pairs(&self) -> Seq<(InstallationId, Seq<char>)> {
        self.entries@.map_values(|e: (InstallationId, EventTopic)| (e.0, e.1@))
    }

    /// The installations and their topics.
    pub open spec fn view(&self) -> Set<(InstallationId, Seq<char>)> {
        self.pairs().to_set()
    }

    fn new() -> (r: TopicGrants)
        ensures
            r.wf(),
            r@ == Set::<(InstallationId, Seq<char>)>::empty(),
    {
        let r = TopicGrants { entries: Vec::new() };
        assert(r@ =~= Set::<(InstallationId, Seq<char>)>::empty());
        r
    }

    /// The place of an entry.
    fn place(&self, installation: InstallationId, topic: &EventTopic) -> (r: Option<usize>)
        ensures
            match r {
                Some(i) => i < self.entries@.len() && self.entries@[i as int].0 == installation
                    && self.entries@[i as int].1@ == topic@ && self@.contains((installation, topic@)),
                None => !self@.contains((installation, topic@)),
            },
    {
        let mut i: usize = 0;
        while i < self.entries.len()
            invariant
                i <= self.entries@.len(),
                forall|j: int|
                    0 <= j < i ==> !((#[trigger] self.entries@[j]).0 == installation && self.entries@[j].1@
                        == topic@),
            decreases self.entries@.len() - i,
        {
            if self.entries[i].0.value == installation.value && self.entries[i].1.same(topic) {
                proof {
                    assert(self.pairs()[i as int] == (installation, topic@));
                    assert(self.pairs().contains((installation, topic@)));
                }
                return Some(i);
            }
            i = i + 1;
        }
        proof {
            if self.pairs().contains((installation, topic@)) {
                let j = choose|j: int| 0 <= j < self.pairs().len() && self.pairs()[j] == (installation, topic@);
                assert(self.entries@[j].0 == installation);
            }
        }
        None
    }

    fn contains(&self, installation: InstallationId, topic: &EventTopic) -> (r: bool)
        ensures
            r == self@.contains((installation, topic@)),
    {
        match self.place(installation, topic) {
            Some(_) => true,
            None => false,
        }
    }

    fn insert(&mut self, installation: InstallationId, topic: EventTopic)
        requires
            old(self).wf(),
        ensures
            final(self).wf(),
            final(self)@ == old(self)@.insert((installation, topic@)),
    {
        let ghost pair = (installation, topic@);
        if self.contains(installation, &topic) {
            assert(self@ =~= old(self)@.insert(pair));
            return;
        }
        let ghost before = self.entries@;
        let mut at: usize = 0;
        while at < self.entries.len() && self.entries[at].0.value <= installation.value
            invariant
                self.entries@ == before,
                at <= before.len(),
                forall|j: int| 0 <= j < at ==> (#[trigger] before[j]).0.value <= installation.value,
            decreases before.len() - at,
        {
            at = at + 1;
        }
        self.entries.insert(at, (installation, topic));
        proof {
            let after = self.entries@;
            assert(old(self).pairs() =~= before.map_values(|e: (InstallationId, EventTopic)| (e.0, e.1@)));
            assert(self.pairs() =~= old(self).pairs().insert(at as int, pair));
            assert forall|p: (InstallationId, Seq<char>)| #[trigger] self.pairs().contains(p) == (old(
                self,
            ).pairs().contains(p) || p == pair) by {
                let was = old(self).pairs();
                let now = self.pairs();
                if now.contains(p) {
                    let i = choose|i: int| 0 <= i < now.len() && now[i] == p;
                    if i < at {
                        assert(was[i] == p);
                    } else if i > at {
                        assert(was[i - 1] == p);
                    }
                }
                if was.contains(p) {
                    let i = choose|i: int| 0 <= i < was.len() && was[i] == p;
                    if i < at {
                        assert(now[i] == p);
                    } else {
                        assert(now[i + 1] == p);
                    }
                }
                assert(now[at as int] == pair);
            }
            assert(self@ =~= old(self)@.insert(pair));
            assert forall|i: int, j: int| 0 <= i < j < after.len() implies !((#[trigger] after[i]).0 == (
            #[trigger] after[j]).0 && after[i].1@ == after[j].1@) by {
                let bi = if i < at {
                    i
                } else {
                    i - 1
                };
                let bj = if j < at {
                    j
                } else {
                    j - 1
                };
                if i == at {
                    assert(after[j] == before[bj]);
                    assert(old(self).pairs()[bj] == (before[bj].0, before[bj].1@));
                    assert(old(self).pairs().contains((before[bj].0, before[bj].1@)));
                } else if j == at {
                    assert(after[i] == before[bi]);
                    assert(old(self).pairs()[bi] == (before[bi].0, before[bi].1@));
                    assert(old(self).pairs().contains((before[bi].0, before[bi].1@)));
                } else {
                    assert(after[i] == before[bi] && after[j] == before[bj]);
                }
            }
        }
    }

    fn remove(&mut self, installation: InstallationId, topic: &EventTopic)
        requires
            old(self).wf(),
        ensures
            final(self).wf(),
            final(self)@ == old(self)@.remove((installation, topic@)),
    {
        let ghost pair = (installation, topic@);
        let ghost before = self.entries@;
        match self.place(installation, topic) {
            None => {
                assert(self@ =~= old(self)@.remove(pair));
            },
            Some(at) => {
                self.entries.remove(at);
                proof {
                    let was = old(self).pairs();
                    let now = self.pairs();
                    assert(now =~= was.remove(at as int));
                    assert forall|p: (InstallationId, Seq<char>)| #[trigger] now.contains(p) == (
                    was.contains(p) && p != pair) by {
                        if now.contains(p) {
                            let i = choose|i: int| 0 <= i < now.len() && now[i] == p;
                            let j = if i < at {
                                i
                            } else {
                                i + 1
                            };
                            assert(was[j] == p);
                            assert(before[j].0 == p.0 && before[j].1@ == p.1);
                            assert(before[at as int].0 == installation);
                        }
                        if was.contains(p) && p != pair {
                            let i = choose|i: int| 0 <= i < was.len() && was[i] == p;
                            assert(was[at as int] == pair);
                            let j = if i < at {
                                i
                            } else {
                                i - 1
                            };
                            assert(now[j] == p);
                        }
                    }
                    assert(self@ =~= old(self)@.remove(pair));
                }
            },
        }
    }

    fn count(&self) -> (r: usize)
        requires
            self.wf(),
        ensures
            r == self@.len(),
    {
        proof {
            assert forall|i: int, j: int| 0 <= i < self.pairs().len() && 0 <= j < self.pairs().len() && i != j
                implies self.pairs()[i] != self.pairs()[j] by {
                if i < j {
                    assert(!(self.entries@[i].0 == self.entries@[j].0 && self.entries@[i].1@
                        == self.entries@[j].1@));
                } else {
                    assert(!(self.entries@[j].0 == self.entries@[i].0 && self.entries@[j].1@
                        == self.entries@[i].1@));
                }
            }
            self.pairs().unique_seq_to_set();
        }
        self.entries.len()
    }

    /// The installations that have a topic, in ascending order.
    fn holders(&self, topic: &EventTopic) -> (r: Vec<InstallationId>)
        requires
            self.wf(),
        ensures
            forall|i: int, j: int| 0 <= i < j < r@.len() ==> (#[trigger] r@[i]).value < (#[trigger] r@[j]).value,
            forall|x: InstallationId| #[trigger] r@.contains(x) == self@.contains((x, topic@)),
    {
        let mut out: Vec<InstallationId> = Vec::new();
        let mut i: usize = 0;
        while i < self.entries.len()
            invariant
                self.wf(),
                i <= self.entries@.len(),
                forall|a: int, b: int|
                    0 <= a < b < out@.len() ==> (#[trigger] out@[a]).value < (#[trigger] out@[b]).value,
                forall|a: int|
                    0 <= a < out@.len() ==> exists|j: int|
                        0 <= j < i && (#[trigger] self.entries@[j]).0 == #[trigger] out@[a]
                            && self.entries@[j].1@ == topic@,
                forall|j: int|
                    0 <= j < i && (#[trigger] self.entries@[j]).1@ == topic@ ==> out@.contains(
                        self.entries@[j].0,
                    ),
            decreases self.entries@.len() - i,
        {
            if self.entries[i].1.same(topic) {
                let ghost was = out@;
                let holder: InstallationId = self.entries[i].0;
                proof {
                    assert forall|a: int| 0 <= a < was.len() implies (#[trigger] was[a]).value < holder.value by {
                        let j = choose|j: int|
                            0 <= j < i && (#[trigger] self.entries@[j]).0 == was[a] && self.entries@[j].1@
                                == topic@;
                        assert(self.entries@[j].0.value <= self.entries@[i as int].0.value);
                        if self.entries@[j].0.value == self.entries@[i as int].0.value {
                            assert(self.entries@[j].0 == self.entries@[i as int].0);
                        }
                    }
                }
                out.push(holder);
                proof {
                    assert forall|x: InstallationId| #[trigger] was.contains(x) implies out@.contains(x) by {
                        let a = choose|a: int| 0 <= a < was.len() && was[a] == x;
                        assert(out@[a] == x);
                    }
                    assert(out@[was.len() as int] == holder);
                    assert(out@.contains(holder));
                    assert forall|a: int| 0 <= a < out@.len() implies exists|j: int|
                        0 <= j < i + 1 && (#[trigger] self.entries@[j]).0 == #[trigger] out@[a]
                            && self.entries@[j].1@ == topic@ by {
                        if a < was.len() {
                            assert(out@[a] == was[a]);
                        } else {
                            assert(self.entries@[i as int].0 == out@[a]);
                        }
                    }
                }
            }
            i = i + 1;
        }
        proof {
            assert forall|x: InstallationId| #[trigger] out@.contains(x) == self@.contains((x, topic@)) by {
                if out@.contains(x) {
                    let a = choose|a: int| 0 <= a < out@.len() && out@[a] == x;
                    let j = choose|j: int|
                        0 <= j < i && (#[trigger] self.entries@[j]).0 == out@[a] && self.entries@[j].1@
                            == topic@;
                    assert(self.pairs()[j] == (x, topic@));
                    assert(self.pairs().contains((x, topic@)));
                }
                if self.pairs().contains((x, topic@)) {
                    let j = choose|j: int| 0 <= j < self.pairs().len() && self.pairs()[j] == (x, topic@);
                    assert(self.entries@[j].0 == x);
                }
            }
        }
        out
    }
}

/// Who may publish and who hears what, kept in this process.
#[derive(Debug)]
pub struct InProcessEventPolicy {
    publish: TopicGrants,
    subscribe: TopicGrants,
}

impl InProcessEventPolicy {
    pub closed spec fn wf(&self) -> bool {
        self.publish.wf() && self.subscribe.wf()
    }

    /// The topics that installations may publish on.
    pub closed spec fn publishers(&self) -> Set<(InstallationId, Seq<char>)> {
        self.publish@
    }

    /// The topics that installations hear.
    pub closed spec fn hearers(&self) -> Set<(InstallationId, Seq<char>)> {
        self.subscribe@
    }

    /// None may publish and none hears anything, to begin with.
    pub fn new() -> (r: InProcessEventPolicy)
        ensures
            r.wf(),
            r.publishers() == Set::<(InstallationId, Seq<char>)>::empty(),
            r.hearers() == Set::<(InstallationId, Seq<char>)>::empty(),
    {
        InProcessEventPolicy { publish: TopicGrants::new(), subscribe: TopicGrants::new() }
    }

    pub fn grant_publish(&mut self, installation: InstallationId, topic: EventTopic)
        requires
            old(self).wf(),
        ensures
            final(self).wf(),
            final(self).publishers() == old(self).publishers().insert((installation, topic@)),
            final(self).hearers() == old(self).hearers(),
    {
        self.publish.insert(installation, topic);
    }

    pub fn grant_subscribe(&mut self, installation: InstallationId, topic: EventTopic)
        requires
            old(self).wf(),
        ensures
            final(self).wf(),
            final(self).publishers() == old(self).publishers(),
            final(self).hearers() == old(self).hearers().insert((installation, topic@)),
    {
        self.subscribe.insert(installation, topic);
    }

    pub fn revoke_subscribe(&mut self, installation: InstallationId, topic: &EventTopic)
        requires
            old(self).wf(),
        ensures
            final(self).wf(),
            final(self).publishers() == old(self).publishers(),
            final(self).hearers() == old(self).hearers().remove((installation, topic@)),
    {
        self.subscribe.remove(installation, topic);
    }

    pub fn publish_count(&self) -> (r: usize)
        requires
            self.wf(),
        ensures
            r == self.publishers().len(),
    {
        self.publish.count()
    }

    pub fn subscribe_count(&self) -> (r: usize)
        requires
            self.wf(),
        ensures
            r == self.hearers().len(),
    {
        self.subscribe.count()
    }

    /// Whether an installation may publish on a topic. The host's own topics are
    /// out of reach, granted or not.
    pub fn publish_granted(&self, installation: InstallationId, topic: &EventTopic) -> (r: bool)
        requires
            self.wf(),
        ensures
            r == (!RESERVED_TOPIC_PREFIX@.is_prefix_of(topic@) && self.publishers().contains(
                (installation, topic@),
            )),
    {
        if has_prefix(&chars_of(topic.as_str()), &chars_of(RESERVED_TOPIC_PREFIX)) {
            return false;
        }
        self.publish.contains(installation, topic)
    }

    /// Who hears a topic, in ascending order.
    pub fn subscribers(&self, topic: &EventTopic) -> (r: Vec<InstallationId>)
        requires
            self.wf(),
        ensures
            forall|i: int, j: int| 0 <= i < j < r@.len() ==> (#[trigger] r@[i]).value < (#[trigger] r@[j]).value,
            forall|x: InstallationId| #[trigger] r@.contains(x) == self.hearers().contains((x, topic@)),
    {
        self.subscribe.holders(topic)
    }
}

/// A checkpoint with nothing to write. It counts its calls.
#[derive(Debug)]
pub struct InProcessCheckpoint {
    calls: u64,
}

impl InProcessCheckpoint {
    pub closed spec fn calls(&self) -> u64 {
        self.calls
    }

    pub fn new() -> (r: InProcessCheckpoint)
        ensures
            r.calls() == 0,
    {
        InProcessCheckpoint { calls: 0 }
    }

    /// How many checkpoints were asked for.
    pub fn checkpoint_calls(&self) -> (r: u64)
        ensures
            r == self.calls(),
    {
        self.calls
    }

    /// A checkpoint of an installation. There is nothing to write, so it never
    /// fails. The count starts over when it has run through all numbers.
    pub fn checkpoint(&mut self, installation: InstallationId) -> (r: Result<(), CheckpointError>)
        ensures
            r is Ok,
            final(self).calls() == if old(self).calls() == u64::MAX {
                0
            } else {
                old(self).calls() + 1
            },
    {
        self.calls = self.calls.wrapping_add(1);
        Ok(())
    }
}

/// A grant of one capability lets nothing through under another.
pub proof fn law_capabilities_are_separate(
    grants: Seq<InstallationGrant>,
    held: Seq<char>,
    asked: Seq<char>,
    name: Seq<char>,
)
    requires
        held != asked,
        forall|i: int| 0 <= i < grants.len() ==> (#[trigger] grants[i]).capability@ == held,
    ensures
        !allowed(grants, asked, name),
{
}

/// An installation without grants is denied everything.
pub proof fn law_denied_by_default(capability: Seq<char>, name: Seq<char>)
    ensures
        !allowed(Seq::<InstallationGrant>::empty(), capability, name),
{
}

/// More grants never let less through.
pub proof fn law_grants_are_monotone(
    grants: Seq<InstallationGrant>,
    more: Seq<InstallationGrant>,
    capability: Seq<char>,
    name: Seq<char>,
)
    requires
        allowed(grants, capability, name),
        forall|i: int| 0 <= i < grants.len() ==> more.contains(#[trigger] grants[i]),
    ensures
        allowed(more, capability, name),
{
    let i = choose|i: int| 0 <= i < grants.len() && grant_allows(#[trigger] grants[i], capability, name);
    assert(more.contains(grants[i]));
    let j = choose|j: int| 0 <= j < more.len() && more[j] == grants[i];
    assert(grant_allows(more[j], capability, name));
}

/// Law: something is let through exactly where a grant of its capability covers
/// all of it, or names it; a grant of a directory or a variable lets nothing
/// through.
pub proof fn law_let_through_by_a_grant_of_its_name(
    grants: Seq<InstallationGrant>,
    capability: Seq<char>,
    name: Seq<char>,
)
    ensures
        allowed(grants, capability, name) <==> exists|i: int| {
            &&& 0 <= i < grants.len()
            &&& (#[trigger] grants[i]).capability@ == capability
            &&& grants[i].scope is Unscoped || (grants[i].scope matches GrantScope::Action { name: granted }
                && granted@ == name)
        },
{
    if allowed(grants, capability, name) {
        let i = choose|i: int| 0 <= i < grants.len() && grant_allows(#[trigger] grants[i], capability, name);
        assert(grants[i].capability@ == capability);
    }
    if exists|i: int| {
        &&& 0 <= i < grants.len()
        &&& (#[trigger] grants[i]).capability@ == capability
        &&& grants[i].scope is Unscoped || (grants[i].scope matches GrantScope::Action { name: granted }
            && granted@ == name)
    } {
        let i = choose|i: int| {
            &&& 0 <= i < grants.len()
            &&& (#[trigger] grants[i]).capability@ == capability
            &&& grants[i].scope is Unscoped || (grants[i].scope matches GrantScope::Action { name: granted }
                && granted@ == name)
        };
        assert(grant_allows(grants[i], capability, name));
    }
}

/// Law: a window stays as it is for less than a minute from its start, and from
/// then on a new one begins, with nothing counted.
pub proof fn law_rate_window_lasts_a_minute(window: RateWindow, now: Duration)
    ensures
        now.nanos < window.start.nanos + 60_000_000_000 ==> rate_at(Some(window), now) == window,
        now.nanos >= window.start.nanos + 60_000_000_000 ==> rate_at(Some(window), now).start == now && rate_at(
            Some(window),
            now,
        ).count == 0,
        rate_at(None, now).start == now && rate_at(None, now).count == 0,
{
}

/// Law: an action goes on to be counted exactly where limits and grants can be
/// read, some grant lets it through and its body is within the limit; otherwise
/// the first of these that fails is told.
pub proof fn law_action_is_turned_away_only_for_cause(
    context: ActionContext,
    config: Result<RuntimeConfig, ConfigError>,
    grants: Result<Vec<InstallationGrant>, GrantError>,
)
    ensures
        config is Err || grants is Err ==> InProcessActionPolicy::fault(context, config, grants) == Some(
            ActionDenied::Unknown,
        ),
        config matches Ok(c) ==> grants matches Ok(g) ==> {
            let let_through = allowed(g@, "operune:web/actions"@, context.action@);
            let fits = context.body_size.bytes <= c.max_action_body_bytes.bytes;
            let fault = InProcessActionPolicy::fault(context, config, grants);
            &&& let_through && fits ==> fault is None
            &&& !let_through ==> fault == Some(ActionDenied::NotGranted)
            &&& let_through && !fits ==> fault == Some(ActionDenied::BodyTooLarge)
        },
{
}

} // verus!
