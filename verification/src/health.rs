//! Health of the platform modules, as the live status monitor records it
//! and as the health port reports it.
//!
//! The monitor itself (a background thread that polls the cluster) lives at
//! the edge; what it decides and what it keeps is modelled here.

use crate::codec::str_eq;
use crate::text::chars_of;
use crate::domain::{clone_opt, opt_view};
use vstd::prelude::*;

verus! {

/// Health of one module, as its check reports it.
#[derive(Debug, Clone)]
pub enum HealthStatus {
    Healthy,
    Degraded(String),
    Unhealthy(String),
}

/// Health of one component, as the health port reports it.
#[derive(Debug, Clone)]
pub enum ComponentHealthStatus {
    Healthy,
    Degraded(String),
    Unhealthy(String),
}

/// The component health that a module health stands for: the same state
/// and the same message.
pub open spec fn component_status(s: HealthStatus) -> ComponentHealthStatus {
    match s {
        HealthStatus::Healthy => ComponentHealthStatus::Healthy,
        HealthStatus::Degraded(m) => ComponentHealthStatus::Degraded(m),
        HealthStatus::Unhealthy(m) => ComponentHealthStatus::Unhealthy(m),
    }
}

/// Maps a module health to a component health.
pub fn map_health_status(status: HealthStatus) -> (c: ComponentHealthStatus)
    ensures
        c == component_status(status),
{
    match status {
        HealthStatus::Healthy => ComponentHealthStatus::Healthy,
        HealthStatus::Degraded(m) => ComponentHealthStatus::Degraded(m),
        HealthStatus::Unhealthy(m) => ComponentHealthStatus::Unhealthy(m),
    }
}

/// A copy of a module health.
pub fn copy_status(s: &HealthStatus) -> (r: HealthStatus)
    ensures
        r == *s,
{
    match s {
        HealthStatus::Healthy => HealthStatus::Healthy,
        HealthStatus::Degraded(m) => HealthStatus::Degraded(m.clone()),
        HealthStatus::Unhealthy(m) => HealthStatus::Unhealthy(m.clone()),
    }
}

/// The outcome of checking one registered module during a polling round.
#[derive(Debug)]
pub struct ModuleCheck {
    pub name: String,
    /// Whether the module is enabled in the current configuration; a
    /// disabled module is not checked.
    pub enabled: bool,
    /// What the check returned, or the text of the error it failed with.
    pub outcome: Result<HealthStatus, String>,
}

/// The health recorded for a check: what it returned, or `Unhealthy` with
/// the error text when it failed.
pub open spec fn check_status(c: ModuleCheck) -> HealthStatus {
    match c.outcome {
        Ok(s) => s,
        Err(e) => HealthStatus::Unhealthy(e),
    }
}

/// Position of the entry named `name`, the first one if several are.
pub open spec fn entry_position<T>(s: Seq<(Seq<char>, T)>, name: Seq<char>) -> Option<int>
    decreases s.len(),
{
    if s.len() == 0 {
        None
    } else if s[0].0 == name {
        Some(0)
    } else {
        match entry_position(s.drop_first(), name) {
            Some(i) => Some(i + 1),
            None => None,
        }
    }
}

/// The entries after recording `status` for `name`: the entry of that name
/// is replaced, or a new one added at the end.
pub open spec fn upsert<T>(s: Seq<(Seq<char>, T)>, name: Seq<char>, status: T) -> Seq<(Seq<char>, T)> {
    match entry_position(s, name) {
        Some(i) => s.update(i, (name, status)),
        None => s.push((name, status)),
    }
}

/// The health table one polling round produces from its checks, in order:
/// each enabled module's health is recorded under its name, a later check
/// of the same name replacing an earlier one.
pub open spec fn round_entries(checks: Seq<ModuleCheck>) -> Seq<(Seq<char>, HealthStatus)>
    decreases checks.len(),
{
    if checks.len() == 0 {
        Seq::empty()
    } else {
        let prev = round_entries(checks.drop_last());
        let c = checks.last();
        if c.enabled {
            upsert(prev, c.name@, check_status(c))
        } else {
            prev
        }
    }
}

/// The abstract content of a health table.
pub open spec fn entries_view(v: Seq<(String, HealthStatus)>) -> Seq<(Seq<char>, HealthStatus)> {
    v.map_values(|e: (String, HealthStatus)| (e.0@, e.1))
}

/// No two entries share a name.
pub open spec fn names_unique<T>(s: Seq<(Seq<char>, T)>) -> bool {
    forall|i: int, j: int| 0 <= i < s.len() && 0 <= j < s.len() && i != j ==> s[i].0 != s[j].0
}

/// The value recorded for `name`, if any.
pub open spec fn lookup<T>(s: Seq<(Seq<char>, T)>, name: Seq<char>) -> Option<T> {
    match entry_position(s, name) {
        Some(i) => Some(s[i].1),
        None => None,
    }
}

/// The last enabled check of `name` among the checks, if any.
pub open spec fn last_enabled_check(checks: Seq<ModuleCheck>, name: Seq<char>) -> Option<int>
    decreases checks.len(),
{
    if checks.len() == 0 {
        None
    } else if checks.last().enabled && checks.last().name@ == name {
        Some(checks.len() - 1)
    } else {
        last_enabled_check(checks.drop_last(), name)
    }
}

proof fn lemma_last_enabled_check(checks: Seq<ModuleCheck>, name: Seq<char>)
    ensures
        match last_enabled_check(checks, name) {
            Some(i) => 0 <= i < checks.len() && checks[i].enabled && checks[i].name@ == name,
            None => true,
        },
    decreases checks.len(),
{
    if checks.len() > 0 {
        lemma_last_enabled_check(checks.drop_last(), name);
    }
}

pub(crate) proof fn lemma_entry_position_spec<T>(s: Seq<(Seq<char>, T)>, name: Seq<char>)
    ensures
        match entry_position(s, name) {
            Some(i) => 0 <= i < s.len() && s[i].0 == name && forall|k: int|
                0 <= k < i ==> s[k].0 != name,
            None => forall|k: int| 0 <= k < s.len() ==> s[k].0 != name,
        },
    decreases s.len(),
{
    if s.len() > 0 {
        lemma_entry_position_spec(s.drop_first(), name);
        if s[0].0 != name {
            assert forall|k: int| 0 < k < s.len() implies s[k] == s.drop_first()[k - 1] by {}
        }
    }
}

pub(crate) proof fn lemma_entry_position_of<T>(s: Seq<(Seq<char>, T)>, name: Seq<char>, i: int)
    requires
        0 <= i < s.len(),
        s[i].0 == name,
        forall|k: int| 0 <= k < i ==> s[k].0 != name,
    ensures
        entry_position(s, name) == Some(i),
{
    lemma_entry_position_spec(s, name);
    match entry_position(s, name) {
        Some(j) => {
            if j < i {
                assert(s[j].0 != name);
            } else if j > i {
                assert(s[i].0 != name);
            }
        },
        None => {
            assert(s[i].0 != name);
        },
    }
}

/// Recording a health keeps names unique, and afterwards the name reads
/// back the recorded health while every other name reads as before.
proof fn lemma_upsert<T>(s: Seq<(Seq<char>, T)>, name: Seq<char>, status: T)
    requires
        names_unique(s),
    ensures
        names_unique(upsert(s, name, status)),
        lookup(upsert(s, name, status), name) == Some(status),
        forall|other: Seq<char>|
            other != name ==> lookup(upsert(s, name, status), other) == lookup(s, other),
{
    lemma_entry_position_spec(s, name);
    let t = upsert(s, name, status);
    match entry_position(s, name) {
        Some(i) => {
            assert(t == s.update(i, (name, status)));
            lemma_entry_position_of(t, name, i);
            assert forall|other: Seq<char>| other != name implies lookup(t, other) == lookup(
                s,
                other,
            ) by {
                lemma_entry_position_spec(s, other);
                match entry_position(s, other) {
                    Some(j) => {
                        lemma_entry_position_of(t, other, j);
                    },
                    None => {
                        lemma_entry_position_spec(t, other);
                        if let Some(j) = entry_position(t, other) {
                            assert(t[j].0 == s[j].0);
                        }
                    },
                }
            }
        },
        None => {
            assert(t == s.push((name, status)));
            lemma_entry_position_of(t, name, s.len() as int);
            assert forall|other: Seq<char>| other != name implies lookup(t, other) == lookup(
                s,
                other,
            ) by {
                lemma_entry_position_spec(s, other);
                match entry_position(s, other) {
                    Some(j) => {
                        lemma_entry_position_of(t, other, j);
                    },
                    None => {
                        lemma_entry_position_spec(t, other);
                        if let Some(j) = entry_position(t, other) {
                            assert(t[j].0 == s[j].0);
                        }
                    },
                }
            }
        },
    }
}

/// What a polling round records: names stay unique, and each name reads
/// back the health of the last enabled check of that name, or nothing when
/// no enabled module has that name.
pub proof fn lemma_round_last_check_wins(checks: Seq<ModuleCheck>, name: Seq<char>)
    ensures
        names_unique(round_entries(checks)),
        lookup(round_entries(checks), name) == (match last_enabled_check(checks, name) {
            Some(i) => Some(check_status(checks[i])),
            None => None,
        }),
    decreases checks.len(),
{
    if checks.len() == 0 {
        lemma_entry_position_spec(round_entries(checks), name);
    } else {
        let prev = checks.drop_last();
        lemma_round_last_check_wins(prev, name);
        lemma_last_enabled_check(prev, name);
        let c = checks.last();
        if c.enabled {
            lemma_round_last_check_wins(prev, c.name@);
            lemma_upsert(round_entries(prev), c.name@, check_status(c));
        }
        match last_enabled_check(prev, name) {
            Some(i) => {
                assert(checks[i] == prev[i]);
            },
            None => {},
        }
    }
}

fn find_entry(entries: &Vec<(String, HealthStatus)>, name: &String) -> (r: Option<usize>)
    ensures
        match r {
            Some(k) => k < entries@.len() && entry_position(entries_view(entries@), name@) == Some(
                k as int,
            ),
            None => entry_position(entries_view(entries@), name@) is None,
        },
{
    let ghost s = entries_view(entries@);
    let mut i: usize = 0;
    while i < entries.len()
        invariant
            0 <= i <= entries.len(),
            s == entries_view(entries@),
            forall|k: int| 0 <= k < i ==> s[k].0 != name@,
        decreases entries.len() - i,
    {
        if str_eq(entries[i].0.as_str(), name.as_str()) {
            proof {
                lemma_entry_position_of(s, name@, i as int);
            }
            return Some(i);
        }
        i = i + 1;
    }
    proof {
        lemma_entry_position_spec(s, name@);
        if let Some(j) = entry_position(s, name@) {
            assert(s[j].0 != name@);
        }
    }
    None
}

/// Builds the health table of one polling round from its module checks:
/// disabled modules are skipped, a failed check is recorded as unhealthy
/// with its error text, and a later check of a name replaces an earlier one.
pub fn health_round(checks: Vec<ModuleCheck>) -> (table: Vec<(String, HealthStatus)>)
    ensures
        entries_view(table@) == round_entries(checks@),
{
    let mut table: Vec<(String, HealthStatus)> = Vec::new();
    let ghost all = checks@;
    let rest = checks;
    let mut i: usize = 0;
    let n = rest.len();
    proof {
        assert(entries_view(table@) =~= round_entries(all.take(0)));
    }
    while i < n
        invariant
            n == all.len(),
            0 <= i <= n,
            rest@ == all,
            entries_view(table@) == round_entries(all.take(i as int)),
        decreases n - i,
    {
        let c = &rest[i];
        proof {
            assert(all.take(i + 1).drop_last() =~= all.take(i as int));
            assert(all.take(i + 1).last() == all[i as int]);
        }
        if c.enabled {
            let status = match &c.outcome {
                Ok(s) => copy_status(s),
                Err(e) => HealthStatus::Unhealthy(e.clone()),
            };
            let name = c.name.clone();
            let ghost before = entries_view(table@);
            match find_entry(&table, &name) {
                Some(k) => {
                    table.set(k, (name, status));
                    proof {
                        assert(entries_view(table@) =~= before.update(
                            k as int,
                            (all[i as int].name@, check_status(all[i as int])),
                        ));
                    }
                },
                None => {
                    table.push((name, status));
                    proof {
                        assert(entries_view(table@) =~= before.push(
                            (all[i as int].name@, check_status(all[i as int])),
                        ));
                    }
                },
            }
        }
        i = i + 1;
    }
    proof {
        assert(all.take(n as int) =~= all);
    }
    table
}

/// Copies a health table.
fn copy_table(t: &Vec<(String, HealthStatus)>) -> (r: Vec<(String, HealthStatus)>)
    ensures
        entries_view(r@) == entries_view(t@),
{
    let mut r: Vec<(String, HealthStatus)> = Vec::new();
    let mut i: usize = 0;
    while i < t.len()
        invariant
            0 <= i <= t.len(),
            r@.len() == i,
            entries_view(r@) == entries_view(t@).take(i as int),
        decreases t.len() - i,
    {
        let e = (t[i].0.clone(), copy_status(&t[i].1));
        let ghost before = r@;
        r.push(e);
        proof {
            assert(r@ == before.push(e));
            assert forall|k: int| 0 <= k < i + 1 implies #[trigger] entries_view(r@)[k]
                == entries_view(t@)[k] by {
                if k < i {
                    assert(r@[k] == before[k]);
                    assert(entries_view(before)[k] == entries_view(t@).take(i as int)[k]);
                }
            }
            assert(entries_view(r@) =~= entries_view(t@).take(i + 1));
        }
        i = i + 1;
    }
    proof {
        assert(entries_view(t@).take(t.len() as int) =~= entries_view(t@));
    }
    r
}

/// The abstract state of the live status monitor.
pub struct LiveStatusView {
    /// The cluster cache has been set up.
    pub cache_ready: bool,
    /// The health table of the last completed polling round.
    pub health: Seq<(Seq<char>, HealthStatus)>,
    /// The last error the monitor ran into.
    pub error: Option<Seq<char>>,
    /// The monitor has been asked to stop.
    pub stopped: bool,
}

/// Time between two polling rounds of the monitor, in milliseconds.
pub const POLL_INTERVAL_MS: u64 = 15_000;

/// What the monitor does at a tick of its interval.
#[derive(Debug, Clone, Copy, PartialEq, Eq, Structural)]
pub enum MonitorStep {
    /// It was asked to stop: the loop ends.
    Stop,
    /// It runs a polling round, then waits `POLL_INTERVAL_MS` for the next tick.
    Poll,
}

/// The monitor after it was asked to stop.
pub open spec fn stopped_state(v: LiveStatusView) -> LiveStatusView {
    LiveStatusView { stopped: true, ..v }
}

/// The monitor after its cluster cache became ready.
pub open spec fn cache_ready_state(v: LiveStatusView) -> LiveStatusView {
    LiveStatusView { cache_ready: true, ..v }
}

/// The monitor after it ran into `error`.
pub open spec fn errored_state(v: LiveStatusView, error: Seq<char>) -> LiveStatusView {
    LiveStatusView { error: Some(error), ..v }
}

/// The monitor after a polling round with `checks`.
pub open spec fn polled_state(v: LiveStatusView, checks: Seq<ModuleCheck>) -> LiveStatusView {
    LiveStatusView { health: round_entries(checks), ..v }
}

/// Stopping is idempotent and final: stopping twice is stopping once, and
/// whatever the monitor records afterwards, it stays stopped.
pub proof fn lemma_stop_is_final(v: LiveStatusView, checks: Seq<ModuleCheck>, error: Seq<char>)
    ensures
        stopped_state(stopped_state(v)) == stopped_state(v),
        polled_state(stopped_state(v), checks).stopped,
        errored_state(stopped_state(v), error).stopped,
        cache_ready_state(stopped_state(v)).stopped,
{
}

/// Once asked to stop, the monitor's next step is to stop, and stays so
/// whatever it records afterwards.
pub proof fn lemma_stopped_monitor_stops(v: LiveStatusView, checks: Seq<ModuleCheck>, error: Seq<char>)
    ensures
        stopped_state(v).stopped,
        polled_state(stopped_state(v), checks).stopped,
        errored_state(polled_state(stopped_state(v), checks), error).stopped,
{
}

proof fn lemma_last_enabled_check_exact(checks: Seq<ModuleCheck>, name: Seq<char>)
    ensures
        match last_enabled_check(checks, name) {
            Some(i) => 0 <= i < checks.len() && checks[i].enabled && checks[i].name@ == name && forall|k: int|
                i < k < checks.len() ==> !(#[trigger] checks[k].enabled && checks[k].name@ == name),
            None => forall|k: int| 0 <= k < checks.len() ==> !(#[trigger] checks[k].enabled && checks[k].name@ == name),
        },
    decreases checks.len(),
{
    if checks.len() > 0 {
        let prev = checks.drop_last();
        lemma_last_enabled_check_exact(prev, name);
        assert forall|k: int| 0 <= k < prev.len() implies #[trigger] checks[k] == prev[k] by {}
    }
}

/// The health a polling round records for a module: it has an entry
/// exactly when some enabled check of that name ran, and then the entry is
/// the outcome of the last such check: the health it returned, or unhealthy
/// with its error text when it failed. Disabled modules leave no entry.
pub proof fn lemma_health_round_law(checks: Seq<ModuleCheck>, name: Seq<char>)
    ensures
        lookup(round_entries(checks), name) is Some <==> exists|i: int|
            0 <= i < checks.len() && #[trigger] checks[i].enabled && checks[i].name@ == name,
        lookup(round_entries(checks), name) matches Some(st) ==> exists|i: int|
            #![trigger checks[i]]
            0 <= i < checks.len() && checks[i].enabled && checks[i].name@ == name && (forall|k: int|
                i < k < checks.len() ==> !(#[trigger] checks[k].enabled && checks[k].name@ == name)) && (
            checks[i].outcome matches Ok(h) ==> st == h) && (checks[i].outcome matches Err(e) ==> st
                == HealthStatus::Unhealthy(e)),
{
    lemma_round_last_check_wins(checks, name);
    lemma_last_enabled_check_exact(checks, name);
    match last_enabled_check(checks, name) {
        Some(i) => {
            assert(checks[i].enabled && checks[i].name@ == name);
        },
        None => {},
    }
}

/// What the live status monitor has recorded: whether the cluster cache is
/// ready, the health of the enabled modules from the last polling round,
/// the last error, and whether it was asked to stop.
pub struct LiveStatus {
    cache_ready: bool,
    health: Vec<(String, HealthStatus)>,
    error: Option<String>,
    shutdown: bool,
}

impl View for LiveStatus {
    type V = LiveStatusView;

    closed spec fn view(&self) -> LiveStatusView {
        LiveStatusView {
            cache_ready: self.cache_ready,
            health: entries_view(self.health@),
            error: opt_view(self.error),
            stopped: self.shutdown,
        }
    }
}

/// Whether the value of the variable that switches the live status off
/// does so: `1`, or `true` in any letter case.
pub open spec fn disables_live_status(value: Seq<char>) -> bool {
    value == "1"@ || (value.len() == 4 && (value[0] == 't' || value[0] == 'T') && (value[1] == 'r'
        || value[1] == 'R') && (value[2] == 'u' || value[2] == 'U') && (value[3] == 'e' || value[3]
        == 'E'))
}

/// Whether the live status monitor is switched off by the value of its
/// switch variable (`None` when the variable is not set).
pub fn live_status_disabled(value: Option<&str>) -> (off: bool)
    ensures
        off == (match value {
            Some(v) => disables_live_status(v@),
            None => false,
        }),
{
    match value {
        None => false,
        Some(v) => {
            proof {
                reveal_strlit("1");
            }
            let cs = chars_of(v);
            if cs.len() == 1 {
                proof {
                    assert(cs[0] == '1' ==> v@ =~= "1"@);
                }
                cs[0] == '1'
            } else if cs.len() == 4 {
                (cs[0] == 't' || cs[0] == 'T') && (cs[1] == 'r' || cs[1] == 'R') && (cs[2] == 'u'
                    || cs[2] == 'U') && (cs[3] == 'e' || cs[3] == 'E')
            } else {
                false
            }
        },
    }
}

impl LiveStatus {
    /// The state of a monitor that has just started: no cache, no health,
    /// no error, running.
    pub fn new() -> (l: LiveStatus)
        ensures
            !l@.cache_ready,
            l@.health.len() == 0,
            l@.error.is_none(),
            !l@.stopped,
    {
        let l = LiveStatus { cache_ready: false, health: Vec::new(), error: None, shutdown: false };
        proof {
            assert(entries_view(l.health@) =~= Seq::empty());
        }
        l
    }

    /// Whether the cluster cache is ready.
    pub fn cache(&self) -> (ready: bool)
        ensures
            ready == self@.cache_ready,
    {
        self.cache_ready
    }

    /// The health table of the last polling round.
    pub fn health(&self) -> (t: Vec<(String, HealthStatus)>)
        ensures
            entries_view(t@) == self@.health,
    {
        copy_table(&self.health)
    }

    /// The last error the monitor ran into.
    pub fn last_error(&self) -> (e: Option<String>)
        ensures
            opt_view(e) == self@.error,
    {
        clone_opt(&self.error)
    }

    /// Asks the monitor to stop before its next polling round.
    pub fn stop(&mut self)
        ensures
            final(self)@ == stopped_state(old(self)@),
    {
        self.shutdown = true;
    }

    /// What the monitor does at its next tick: stop once asked to, poll
    /// otherwise.
    pub fn next_step(&self) -> (step: MonitorStep)
        ensures
            step == (if self@.stopped {
                MonitorStep::Stop
            } else {
                MonitorStep::Poll
            }),
    {
        if self.shutdown {
            MonitorStep::Stop
        } else {
            MonitorStep::Poll
        }
    }

    /// Whether the monitor was asked to stop.
    pub fn is_stopped(&self) -> (s: bool)
        ensures
            s == self@.stopped,
    {
        self.shutdown
    }

    /// Records that the cluster cache is ready.
    pub fn record_cache_ready(&mut self)
        ensures
            final(self)@ == cache_ready_state(old(self)@),
    {
        self.cache_ready = true;
    }

    /// Records an error; it replaces the one recorded before.
    pub fn record_error(&mut self, error: String)
        ensures
            final(self)@ == errored_state(old(self)@, error@),
    {
        self.error = Some(error);
    }

    /// Records a completed polling round: its health table replaces the
    /// previous one.
    pub fn record_round(&mut self, checks: Vec<ModuleCheck>)
        ensures
            final(self)@ == polled_state(old(self)@, checks@),
    {
        self.health = health_round(checks);
    }
}

/// What the health port reports: each component's health, the monitor's
/// last error, and whether the cluster cache is ready.
pub struct HealthSnapshot {
    pub health: Vec<(String, ComponentHealthStatus)>,
    pub last_error: Option<String>,
    pub cache_ready: bool,
}

impl Default for HealthSnapshot {
    fn default() -> (s: Self)
        ensures
            s.health@.len() == 0,
            s.last_error.is_none(),
            !s.cache_ready,
    {
        HealthSnapshot { health: Vec::new(), last_error: None, cache_ready: false }
    }
}

/// The component view of a health table.
pub open spec fn component_entries(s: Seq<(Seq<char>, HealthStatus)>) -> Seq<
    (Seq<char>, ComponentHealthStatus),
> {
    s.map_values(|e: (Seq<char>, HealthStatus)| (e.0, component_status(e.1)))
}

/// The abstract content of a component health table.
pub open spec fn component_view(v: Seq<(String, ComponentHealthStatus)>) -> Seq<
    (Seq<char>, ComponentHealthStatus),
> {
    v.map_values(|e: (String, ComponentHealthStatus)| (e.0@, e.1))
}

/// The state of an optional monitor.
pub open spec fn monitor_view(l: Option<LiveStatus>) -> Option<LiveStatusView> {
    match l {
        Some(m) => Some(m@),
        None => None,
    }
}

/// Health port backed by the live status monitor, when there is one.
pub struct PrimerHealthPort {
    live_status: Option<LiveStatus>,
}

impl PrimerHealthPort {
    /// A port over `live_status`.
    pub fn new(live_status: Option<LiveStatus>) -> (p: PrimerHealthPort)
        ensures
            p.monitor() == monitor_view(live_status),
    {
        PrimerHealthPort { live_status }
    }

    /// The state of the monitor the port reads, if it has one.
    pub closed spec fn monitor(&self) -> Option<LiveStatusView> {
        monitor_view(self.live_status)
    }

    /// The current health snapshot: empty without a monitor; otherwise
    /// every module health of the last round as a component health, the
    /// last error and whether the cache is ready.
    pub fn snapshot(&self) -> (s: HealthSnapshot)
        ensures
            snapshot_of(s, self.monitor()),
    {
        health_snapshot(self.live_status.as_ref())
    }
}

/// `s` is the health snapshot of a monitor in state `m` (or of none).
pub open spec fn snapshot_of(s: HealthSnapshot, m: Option<LiveStatusView>) -> bool {
    match m {
        None => s.health@.len() == 0 && s.last_error.is_none() && !s.cache_ready,
        Some(m) => component_view(s.health@) == component_entries(m.health)
            && opt_view(s.last_error) == m.error && s.cache_ready == m.cache_ready,
    }
}

/// The health snapshot of the monitor `live` as it is now; a holder that
/// shares the monitor with its worker reads it through this.
pub fn health_snapshot(live: Option<&LiveStatus>) -> (s: HealthSnapshot)
    ensures
        snapshot_of(s, match live {
            Some(l) => Some(l@),
            None => None,
        }),
{
    match live {
        None => HealthSnapshot::default(),
        Some(live) => {
            let raw = live.health();
            let mut health: Vec<(String, ComponentHealthStatus)> = Vec::new();
            let ghost src = entries_view(raw@);
            let mut i: usize = 0;
            while i < raw.len()
                invariant
                    0 <= i <= raw.len(),
                    health@.len() == i,
                    src == entries_view(raw@),
                    component_view(health@) == component_entries(src).take(i as int),
                decreases raw.len() - i,
            {
                let e = (raw[i].0.clone(), map_health_status(copy_status(&raw[i].1)));
                let ghost before = health@;
                health.push(e);
                proof {
                    assert(health@ == before.push(e));
                    assert forall|k: int| 0 <= k < i + 1 implies #[trigger] component_view(
                        health@,
                    )[k] == component_entries(src)[k] by {
                        if k < i {
                            assert(health@[k] == before[k]);
                            assert(component_view(before)[k] == component_entries(src).take(
                                i as int,
                            )[k]);
                        }
                    }
                    assert(component_view(health@) =~= component_entries(src).take(i + 1));
                }
                i = i + 1;
            }
            proof {
                assert(component_entries(src).take(raw.len() as int) =~= component_entries(
                    src,
                ));
            }
            HealthSnapshot { health, last_error: live.last_error(), cache_ready: live.cache() }
        },
    }
}

/// One module as the registry describes it.
#[derive(Debug, Clone)]
pub struct ModuleSpec {
    pub name: String,
    pub domain: String,
    pub namespace: Option<String>,
}

/// The module table: each module's domain and namespace under its name,
/// a later module of the same name replacing an earlier one.
pub open spec fn spec_table(specs: Seq<ModuleSpec>) -> Seq<(Seq<char>, (Seq<char>, Option<Seq<char>>))>
    decreases specs.len(),
{
    if specs.len() == 0 {
        Seq::empty()
    } else {
        let m = specs.last();
        upsert(spec_table(specs.drop_last()), m.name@, (m.domain@, opt_view(m.namespace)))
    }
}

/// The abstract content of a module table.
pub open spec fn module_table_view(v: Seq<(String, (String, Option<String>))>) -> Seq<
    (Seq<char>, (Seq<char>, Option<Seq<char>>)),
> {
    v.map_values(|e: (String, (String, Option<String>))| (e.0@, (e.1.0@, opt_view(e.1.1))))
}

pub(crate) fn find_module(table: &Vec<(String, (String, Option<String>))>, name: &String) -> (r: Option<usize>)
    ensures
        match r {
            Some(k) => k < table@.len() && entry_position(module_table_view(table@), name@) == Some(
                k as int,
            ),
            None => entry_position(module_table_view(table@), name@) is None,
        },
{
    let ghost s = module_table_view(table@);
    let mut i: usize = 0;
    while i < table.len()
        invariant
            0 <= i <= table.len(),
            s == module_table_view(table@),
            forall|k: int| 0 <= k < i ==> s[k].0 != name@,
        decreases table.len() - i,
    {
        if str_eq(table[i].0.as_str(), name.as_str()) {
            proof {
                lemma_entry_position_of(s, name@, i as int);
            }
            return Some(i);
        }
        i = i + 1;
    }
    proof {
        lemma_entry_position_spec(s, name@);
        if let Some(j) = entry_position(s, name@) {
            assert(s[j].0 != name@);
        }
    }
    None
}

/// The module table of the registered modules `specs`: name to domain and
/// namespace.
pub fn module_specs(specs: Vec<ModuleSpec>) -> (table: Vec<(String, (String, Option<String>))>)
    ensures
        module_table_view(table@) == spec_table(specs@),
{
    let mut table: Vec<(String, (String, Option<String>))> = Vec::new();
    let ghost all = specs@;
    let mut i: usize = 0;
    proof {
        assert(module_table_view(table@) =~= spec_table(all.take(0)));
    }
    while i < specs.len()
        invariant
            0 <= i <= specs.len(),
            specs@ == all,
            module_table_view(table@) == spec_table(all.take(i as int)),
        decreases specs.len() - i,
    {
        proof {
            assert(all.take(i + 1).drop_last() =~= all.take(i as int));
            assert(all.take(i + 1).last() == all[i as int]);
        }
        let m = &specs[i];
        let name = m.name.clone();
        let value = (m.domain.clone(), clone_opt(&m.namespace));
        let ghost before = module_table_view(table@);
        let ghost ev = (name@, (value.0@, opt_view(value.1)));
        match find_module(&table, &name) {
            Some(k) => {
                table.set(k, (name, value));
                proof {
                    assert(module_table_view(table@) =~= before.update(k as int, ev));
                }
            },
            None => {
                table.push((name, value));
                proof {
                    assert(module_table_view(table@) =~= before.push(ev));
                }
            },
        }
        i = i + 1;
    }
    proof {
        assert(all.take(specs.len() as int) =~= all);
    }
    table
}

/// A component health keeps the state and the message of the module health
/// it stands for.
pub proof fn lemma_component_status(s: HealthStatus)
    ensures
        s is Healthy <==> component_status(s) is Healthy,
        s is Degraded <==> component_status(s) is Degraded,
        s is Unhealthy <==> component_status(s) is Unhealthy,
        s matches HealthStatus::Degraded(m) ==> (component_status(s) matches ComponentHealthStatus::Degraded(n) && n == m),
        s matches HealthStatus::Unhealthy(m) ==> (component_status(s) matches ComponentHealthStatus::Unhealthy(n) && n == m),
{
}

} // verus!
