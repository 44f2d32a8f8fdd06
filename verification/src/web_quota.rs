//! How many web requests an installation may have: per minute, waiting, and at
//! work at once.
use vstd::prelude::*;

use crate::table::Table;
use crate::values::{ComponentVersion, Duration, InstallationId};

verus! {

/// How long requests are counted together.
pub const RATE_WINDOW_NANOS: u128 = 60_000_000_000;

/// What an installation may have.
#[derive(Debug, Clone, Copy, PartialEq, Eq, Structural)]
pub struct WebQuotaLimits {
    pub max_requests_per_minute: u32,
    /// Requests waiting and at work together.
    pub max_concurrent: u32,
    pub max_queued: u32,
}

impl Default for WebQuotaLimits {
    fn default() -> (r: WebQuotaLimits)
        ensures
            r == (WebQuotaLimits { max_requests_per_minute: 600, max_concurrent: 8, max_queued: 64 }),
    {
        WebQuotaLimits { max_requests_per_minute: 600, max_concurrent: 8, max_queued: 64 }
    }
}

impl WebQuotaLimits {
    /// What is wrong with the limits.
    pub open spec fn fault(&self) -> Option<&'static str> {
        if self.max_requests_per_minute == 0 {
            Some("max_requests_per_minute must be non-zero")
        } else if self.max_concurrent == 0 {
            Some("max_concurrent must be non-zero")
        } else if self.max_queued == 0 {
            Some("max_queued must be non-zero")
        } else {
            None
        }
    }

    /// Checks that every limit lets something through.
    pub fn validate(&self) -> (r: Result<(), &'static str>)
        ensures
            match r {
                Ok(_) => self.fault() is None,
                Err(reason) => self.fault() == Some(reason),
            },
    {
        if self.max_requests_per_minute == 0 {
            return Err("max_requests_per_minute must be non-zero");
        }
        if self.max_concurrent == 0 {
            return Err("max_concurrent must be non-zero");
        }
        if self.max_queued == 0 {
            return Err("max_queued must be non-zero");
        }
        Ok(())
    }
}

/// Whose request it is.
#[derive(Debug, Clone, Copy, PartialEq, Eq, Structural)]
pub struct WebQuotaContext {
    pub installation_id: InstallationId,
    pub version: ComponentVersion,
}

/// Why a request was not admitted.
#[derive(Debug, Clone, Copy, PartialEq, Eq, Structural)]
pub enum WebQuotaDenied {
    RateLimited,
    OverConcurrency,
    OverQueue,
    Unknown,
}

impl WebQuotaDenied {
    /// The denial in words.
    pub fn message(&self) -> (r: &'static str)
        ensures
            r@ == match *self {
                WebQuotaDenied::RateLimited => "web request rate limit exceeded"@,
                WebQuotaDenied::OverConcurrency => "web request concurrency limit reached"@,
                WebQuotaDenied::OverQueue => "web request queue is full"@,
                WebQuotaDenied::Unknown => "web quota check failed"@,
            },
    {
        match self {
            WebQuotaDenied::RateLimited => "web request rate limit exceeded",
            WebQuotaDenied::OverConcurrency => "web request concurrency limit reached",
            WebQuotaDenied::OverQueue => "web request queue is full",
            WebQuotaDenied::Unknown => "web quota check failed",
        }
    }
}

/// An installation's requests.
#[derive(Debug, Clone, Copy, PartialEq, Eq, Structural)]
pub struct QuotaWindow {
    /// When counting began.
    pub start: Duration,
    /// Requests admitted since.
    pub count: u32,
    /// Requests admitted and not yet at work.
    pub queued: u32,
    /// Requests at work.
    pub in_flight: u32,
}

/// A request that was admitted. It holds a place until it is released.
#[derive(Debug)]
pub struct WebQuotaGuard {
    installation: InstallationId,
    begun: bool,
}

/// The window as it stands at `now`: a new one where there was none, and with the
/// count started over where the last minute has passed.
pub open spec fn refreshed(window: Option<QuotaWindow>, now: Duration) -> QuotaWindow {
    match window {
        None => QuotaWindow { start: now, count: 0, queued: 0, in_flight: 0 },
        Some(w) => if now.nanos - w.start.nanos >= RATE_WINDOW_NANOS {
            QuotaWindow { start: now, count: 0, queued: w.queued, in_flight: w.in_flight }
        } else {
            w
        },
    }
}

/// Why a request is not admitted to a window.
pub open spec fn admission_fault(window: QuotaWindow, limits: WebQuotaLimits) -> Option<WebQuotaDenied> {
    if window.count >= limits.max_requests_per_minute {
        Some(WebQuotaDenied::RateLimited)
    } else if window.queued >= limits.max_queued {
        Some(WebQuotaDenied::OverQueue)
    } else if window.in_flight + window.queued >= limits.max_concurrent {
        Some(WebQuotaDenied::OverConcurrency)
    } else {
        None
    }
}

/// The quotas of a host's installations, kept in this process.
#[derive(Debug)]
pub struct InProcessWebQuota {
    limits: WebQuotaLimits,
    windows: Table<QuotaWindow>,
}

impl InProcessWebQuota {
    pub closed spec fn limits(&self) -> WebQuotaLimits {
        self.limits
    }

    /// An installation's requests, where it has had any.
    pub closed spec fn window(&self, installation: InstallationId) -> Option<QuotaWindow> {
        if self.windows@.dom().contains(installation.value) {
            Some(self.windows@[installation.value])
        } else {
            None
        }
    }

    /// The limits let something through.
    pub closed spec fn wf(&self) -> bool {
        &&& self.windows.wf()
        &&& self.limits.fault() is None
    }

    /// No requests yet, within limits that let something through.
    pub fn new(limits: WebQuotaLimits) -> (r: Result<InProcessWebQuota, &'static str>)
        ensures
            match r {
                Ok(quota) => {
                    &&& limits.fault() is None
                    &&& quota.wf()
                    &&& quota.limits() == limits
                    &&& forall|x: InstallationId| #[trigger] quota.window(x) is None
                },
                Err(reason) => limits.fault() == Some(reason),
            },
    {
        match limits.validate() {
            Ok(_) => Ok(InProcessWebQuota { limits, windows: Table::new() }),
            Err(reason) => Err(reason),
        }
    }

    /// Asks for a request to be admitted, at the time `now` of a clock that never
    /// goes back. The first limit that is reached decides: the rate, then the
    /// queue, then concurrency.
    pub fn try_enter(&mut self, context: &WebQuotaContext, now: Duration) -> (r: Result<
        WebQuotaGuard,
        WebQuotaDenied,
    >)
        requires
            old(self).wf(),
        ensures
            final(self).wf(),
            final(self).limits() == old(self).limits(),
            forall|x: InstallationId|
                x != context.installation_id ==> #[trigger] final(self).window(x) == old(self).window(x),
            ({
                let window = refreshed(old(self).window(context.installation_id), now);
                match r {
                    Ok(guard) => {
                        &&& admission_fault(window, old(self).limits()) is None
                        &&& guard.installation() == context.installation_id
                        &&& !guard.begun()
                        &&& final(self).window(context.installation_id) == Some(
                            QuotaWindow {
                                count: (window.count + 1) as u32,
                                queued: (window.queued + 1) as u32,
                                ..window
                            },
                        )
                    },
                    Err(denied) => {
                        &&& admission_fault(window, old(self).limits()) == Some(denied)
                        &&& final(self).window(context.installation_id) == Some(window)
                    },
                }
            }),
    {
        let key: u128 = context.installation_id.value;
        let mut window: QuotaWindow = match self.windows.get(key) {
            Some(window) => *window,
            None => QuotaWindow { start: now, count: 0, queued: 0, in_flight: 0 },
        };
        if now.nanos >= window.start.nanos && now.nanos - window.start.nanos >= RATE_WINDOW_NANOS {
            window.start = now;
            window.count = 0;
        }
        let denied: Option<WebQuotaDenied> = if window.count >= self.limits.max_requests_per_minute {
            Some(WebQuotaDenied::RateLimited)
        } else if window.queued >= self.limits.max_queued {
            Some(WebQuotaDenied::OverQueue)
        } else if window.in_flight.saturating_add(window.queued) >= self.limits.max_concurrent {
            Some(WebQuotaDenied::OverConcurrency)
        } else {
            None
        };
        match denied {
            Some(denied) => {
                self.windows.insert(key, window);
                Err(denied)
            },
            None => {
                window.count = window.count.saturating_add(1);
                window.queued = window.queued.saturating_add(1);
                self.windows.insert(key, window);
                Ok(WebQuotaGuard { installation: context.installation_id, begun: false })
            },
        }
    }

    /// Gives a request's place back.
    pub fn release(&mut self, guard: WebQuotaGuard)
        requires
            old(self).wf(),
        ensures
            final(self).wf(),
            final(self).limits() == old(self).limits(),
            forall|x: InstallationId|
                x != guard.installation() ==> #[trigger] final(self).window(x) == old(self).window(x),
            final(self).window(guard.installation()) == match old(self).window(guard.installation()) {
                None => None,
                Some(w) => Some(released(w, guard.begun())),
            },
    {
        match self.windows.get(guard.installation.value) {
            None => {},
            Some(window) => {
                let mut window: QuotaWindow = *window;
                if guard.begun {
                    window.in_flight = window.in_flight.saturating_sub(1);
                } else {
                    window.queued = window.queued.saturating_sub(1);
                }
                self.windows.insert(guard.installation.value, window);
            },
        }
    }
}

/// The window is within the limits.
pub open spec fn within(window: QuotaWindow, limits: WebQuotaLimits) -> bool {
    &&& window.count <= limits.max_requests_per_minute
    &&& window.queued <= limits.max_queued
    &&& window.queued + window.in_flight <= limits.max_concurrent
}

/// The window after a request has gone to work.
pub open spec fn started(window: QuotaWindow) -> QuotaWindow {
    QuotaWindow {
        queued: if window.queued > 0 {
            (window.queued - 1) as u32
        } else {
            0
        },
        in_flight: if window.in_flight < u32::MAX {
            (window.in_flight + 1) as u32
        } else {
            u32::MAX
        },
        ..window
    }
}

/// The window after a request has given its place back.
pub open spec fn released(window: QuotaWindow, begun: bool) -> QuotaWindow {
    if begun {
        QuotaWindow {
            in_flight: if window.in_flight > 0 {
                (window.in_flight - 1) as u32
            } else {
                0
            },
            ..window
        }
    } else {
        QuotaWindow {
            queued: if window.queued > 0 {
                (window.queued - 1) as u32
            } else {
                0
            },
            ..window
        }
    }
}

impl WebQuotaGuard {
    pub closed spec fn installation(&self) -> InstallationId {
        self.installation
    }

    /// The request has gone to work.
    pub closed spec fn begun(&self) -> bool {
        self.begun
    }

    /// The request goes to work: it leaves the queue. To say so again changes
    /// nothing.
    pub fn begin(&mut self, quota: &mut InProcessWebQuota)
        requires
            old(quota).wf(),
        ensures
            final(quota).wf(),
            final(quota).limits() == old(quota).limits(),
            final(self).installation() == old(self).installation(),
            final(self).begun(),
            forall|x: InstallationId|
                x != old(self).installation() ==> #[trigger] final(quota).window(x) == old(quota).window(x),
            final(quota).window(old(self).installation()) == match old(quota).window(
                old(self).installation(),
            ) {
                Some(w) => if old(self).begun() {
                    Some(w)
                } else {
                    Some(started(w))
                },
                None => None,
            },
    {
        if self.begun {
            return;
        }
        self.begun = true;
        match quota.windows.get(self.installation.value) {
            None => {},
            Some(window) => {
                let mut window: QuotaWindow = *window;
                window.queued = window.queued.saturating_sub(1);
                window.in_flight = window.in_flight.saturating_add(1);
                quota.windows.insert(self.installation.value, window);
            },
        }
    }
}

/// A request leaves no trace in the places it held: admitted and released, gone
/// to work or not, it gives back exactly what it took. Only the count of the
/// minute keeps it.
pub proof fn law_release_returns_the_place(window: QuotaWindow, limits: WebQuotaLimits)
    requires
        admission_fault(window, limits) is None,
    ensures
        ({
            let admitted = QuotaWindow {
                count: (window.count + 1) as u32,
                queued: (window.queued + 1) as u32,
                ..window
            };
            let counted = QuotaWindow { count: admitted.count, ..window };
            &&& released(admitted, false) == counted
            &&& released(started(admitted), true) == counted
        }),
{
}

/// A request that goes to work moves from the queue to the work: together they
/// stay as many.
pub proof fn law_begin_keeps_the_sum(window: QuotaWindow)
    requires
        window.queued > 0,
        window.in_flight < u32::MAX,
    ensures
        started(window).queued + started(window).in_flight == window.queued + window.in_flight,
{
}

/// The limits hold at every moment: a window within them stays within them when
/// the minute passes, when a request is admitted, when one that was waiting goes
/// to work, and when one gives its place back.
pub proof fn law_limits_are_kept(window: QuotaWindow, limits: WebQuotaLimits, now: Duration, begun: bool)
    requires
        within(window, limits),
    ensures
        within(refreshed(None, now), limits),
        within(refreshed(Some(window), now), limits),
        admission_fault(window, limits) is None ==> within(
            (QuotaWindow {
                count: (window.count + 1) as u32,
                queued: (window.queued + 1) as u32,
                ..window
            }),
            limits,
        ),
        window.queued > 0 ==> within(started(window), limits),
        within(released(window, begun), limits),
{
}

/// Law: limits are accepted exactly where each of them lets something through, and
/// where one alone does not, it is named.
pub proof fn law_quota_limits_are_accepted_where_none_is_zero(limits: WebQuotaLimits)
    ensures
        limits.fault() is None <==> limits.max_requests_per_minute > 0 && limits.max_concurrent > 0
            && limits.max_queued > 0,
        limits.max_requests_per_minute == 0 ==> limits.fault() == Some("max_requests_per_minute must be non-zero"),
        limits.max_requests_per_minute > 0 && limits.max_concurrent == 0 ==> limits.fault() == Some(
            "max_concurrent must be non-zero",
        ),
        limits.max_requests_per_minute > 0 && limits.max_concurrent > 0 && limits.max_queued == 0
            ==> limits.fault() == Some("max_queued must be non-zero"),
{
}

/// Law: a minute after its start the count of a window begins anew, and not
/// before; the requests that wait and those at work stay. An installation without
/// a window has none of either.
pub proof fn law_count_begins_anew_every_minute(window: QuotaWindow, now: Duration)
    ensures
        now.nanos < window.start.nanos + 60_000_000_000 ==> refreshed(Some(window), now) == window,
        now.nanos >= window.start.nanos + 60_000_000_000 ==> refreshed(Some(window), now).start == now
            && refreshed(Some(window), now).count == 0,
        refreshed(Some(window), now).queued == window.queued,
        refreshed(Some(window), now).in_flight == window.in_flight,
        refreshed(None, now) == (QuotaWindow { start: now, count: 0, queued: 0, in_flight: 0 }),
{
}

/// Law: a request is admitted exactly where the minute, the queue and the places
/// all have room for one more; otherwise the first of these that has none is told.
pub proof fn law_request_is_admitted_where_there_is_room(window: QuotaWindow, limits: WebQuotaLimits)
    ensures
        admission_fault(window, limits) is None <==> {
            &&& window.count + 1 <= limits.max_requests_per_minute
            &&& window.queued + 1 <= limits.max_queued
            &&& window.in_flight + window.queued + 1 <= limits.max_concurrent
        },
        admission_fault(window, limits) == Some(WebQuotaDenied::RateLimited) <==> window.count
            >= limits.max_requests_per_minute,
        admission_fault(window, limits) == Some(WebQuotaDenied::OverQueue) <==> window.count
            < limits.max_requests_per_minute && window.queued >= limits.max_queued,
        admission_fault(window, limits) == Some(WebQuotaDenied::OverConcurrency) <==> window.count
            < limits.max_requests_per_minute && window.queued < limits.max_queued && window.in_flight
            + window.queued >= limits.max_concurrent,
{
}

/// Law: going to work takes one request from the queue and adds one at work, and
/// giving a place back takes one from where the request was; neither touches the
/// minute, and nothing goes below none.
pub proof fn law_places_move_one_at_a_time(window: QuotaWindow)
    ensures
        started(window).start == window.start && started(window).count == window.count,
        window.queued > 0 ==> started(window).queued == window.queued - 1,
        window.queued == 0 ==> started(window).queued == 0,
        window.in_flight < u32::MAX ==> started(window).in_flight == window.in_flight + 1,
        released(window, true).start == window.start && released(window, true).count == window.count,
        released(window, false).start == window.start && released(window, false).count == window.count,
        released(window, true).queued == window.queued,
        released(window, false).in_flight == window.in_flight,
        window.in_flight > 0 ==> released(window, true).in_flight == window.in_flight - 1,
        window.in_flight == 0 ==> released(window, true).in_flight == 0,
        window.queued > 0 ==> released(window, false).queued == window.queued - 1,
        window.queued == 0 ==> released(window, false).queued == 0,
{
}

} // verus!
