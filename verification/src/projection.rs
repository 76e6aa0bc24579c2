//! Projection of the bootstrap event stream into per-component state and a
//! bootstrap summary, as shown by the terminal UI.

use crate::events::{BootstrapEvent, EventPayload, TimingBreakdown};
use crate::status_cache::{DetailedStatusCache, SlotView, without_slot};
use vstd::prelude::*;

verus! {

/// Lifecycle stage of one component.
#[derive(Debug, Clone, Copy, PartialEq, Eq, Structural)]
pub enum ComponentStatus {
    Pending,
    Running,
    Complete,
    Failed,
    Deferred,
}

/// Timing facts gathered for one component (milliseconds).
#[derive(Debug, Clone, Copy, PartialEq, Eq, Structural)]
pub struct ComponentTiming {
    pub started_at_ms: Option<u64>,
    pub elapsed_ms: Option<u64>,
    pub total_duration_ms: Option<u64>,
    pub render_duration_ms: Option<u64>,
    pub apply_duration_ms: Option<u64>,
    pub wait_duration_ms: Option<u64>,
}

/// The empty timing record.
pub open spec fn no_timing() -> ComponentTiming {
    ComponentTiming {
        started_at_ms: None,
        elapsed_ms: None,
        total_duration_ms: None,
        render_duration_ms: None,
        apply_duration_ms: None,
        wait_duration_ms: None,
    }
}

impl ComponentTiming {
    pub fn new() -> (t: Self)
        ensures
            t == no_timing(),
    {
        ComponentTiming {
            started_at_ms: None,
            elapsed_ms: None,
            total_duration_ms: None,
            render_duration_ms: None,
            apply_duration_ms: None,
            wait_duration_ms: None,
        }
    }

    pub fn update_elapsed(&mut self, elapsed_ms: u64)
        ensures
            *final(self) == (ComponentTiming { elapsed_ms: Some(elapsed_ms), ..*old(self) }),
    {
        self.elapsed_ms = Some(elapsed_ms);
    }
}

/// The state the UI shows for one component; `R` is the engine's readiness report.
pub struct ComponentState<R> {
    pub id: String,
    pub status: ComponentStatus,
    pub readiness: Option<R>,
    pub timing: ComponentTiming,
    pub deferred_reason: Option<String>,
}

/// Abstract view of a component state.
pub struct ComponentView<R> {
    pub id: Seq<char>,
    pub status: ComponentStatus,
    pub readiness: Option<R>,
    pub timing: ComponentTiming,
    pub deferred_reason: Option<Seq<char>>,
}

impl<R> View for ComponentState<R> {
    type V = ComponentView<R>;

    open spec fn view(&self) -> ComponentView<R> {
        ComponentView {
            id: self.id@,
            status: self.status,
            readiness: self.readiness,
            timing: self.timing,
            deferred_reason: match self.deferred_reason {
                Some(s) => Some(s@),
                None => None,
            },
        }
    }
}

/// A component nothing has happened to yet.
pub open spec fn fresh<R>(id: Seq<char>) -> ComponentView<R> {
    ComponentView {
        id,
        status: ComponentStatus::Pending,
        readiness: None,
        timing: no_timing(),
        deferred_reason: None,
    }
}

/// A status a component does not leave for an earlier one: complete,
/// failed or deferred.
pub open spec fn is_finished(s: ComponentStatus) -> bool {
    s is Complete || s is Failed || s is Deferred
}

/// How far along the lifecycle a status is: pending, running, finished.
pub open spec fn status_rank(s: ComponentStatus) -> int {
    match s {
        ComponentStatus::Pending => 0,
        ComponentStatus::Running => 1,
        _ => 2,
    }
}

/// The status after a start or progress report: running, unless the
/// component has already finished.
pub open spec fn running_unless_finished(s: ComponentStatus) -> ComponentStatus {
    if is_finished(s) {
        s
    } else {
        ComponentStatus::Running
    }
}

/// The component after it started at `now`. A finished component keeps its
/// status and its recorded reason.
pub open spec fn started<R>(c: ComponentView<R>, now: u64) -> ComponentView<R> {
    ComponentView {
        status: running_unless_finished(c.status),
        timing: ComponentTiming { started_at_ms: Some(now), ..c.timing },
        deferred_reason: if is_finished(c.status) {
            c.deferred_reason
        } else {
            None
        },
        ..c
    }
}

/// The component after a progress report. A finished component keeps its
/// status.
pub open spec fn progressed<R>(c: ComponentView<R>, readiness: R, elapsed: u64) -> ComponentView<R> {
    ComponentView {
        status: running_unless_finished(c.status),
        readiness: Some(readiness),
        timing: ComponentTiming { elapsed_ms: Some(elapsed), ..c.timing },
        ..c
    }
}

/// The component after it completed.
pub open spec fn completed<R>(c: ComponentView<R>, duration: u64, b: TimingBreakdown) -> ComponentView<R> {
    ComponentView {
        status: ComponentStatus::Complete,
        timing: ComponentTiming {
            total_duration_ms: Some(duration),
            render_duration_ms: Some(b.render_duration_ms),
            apply_duration_ms: Some(b.apply_duration_ms),
            wait_duration_ms: Some(b.wait_duration_ms),
            ..c.timing
        },
        ..c
    }
}

/// The component after it failed with `error`.
pub open spec fn failed<R>(c: ComponentView<R>, duration: u64, error: Seq<char>) -> ComponentView<R> {
    ComponentView {
        status: ComponentStatus::Failed,
        timing: ComponentTiming { total_duration_ms: Some(duration), ..c.timing },
        deferred_reason: Some(error),
        ..c
    }
}

/// The component after it was deferred for `reason`.
pub open spec fn deferred<R>(c: ComponentView<R>, reason: Seq<char>) -> ComponentView<R> {
    ComponentView { status: ComponentStatus::Deferred, deferred_reason: Some(reason), ..c }
}

impl<R> ComponentState<R> {
    pub fn new(id: String) -> (c: Self)
        ensures
            c@ == fresh::<R>(id@),
    {
        ComponentState {
            id,
            status: ComponentStatus::Pending,
            readiness: None,
            timing: ComponentTiming::new(),
            deferred_reason: None,
        }
    }

    pub fn mark_running(&mut self, now_ms: u64)
        ensures
            final(self)@ == (ComponentView {
                status: ComponentStatus::Running,
                timing: ComponentTiming { started_at_ms: Some(now_ms), ..old(self)@.timing },
                ..old(self)@
            }),
    {
        self.status = ComponentStatus::Running;
        self.timing.started_at_ms = Some(now_ms);
    }

    pub fn mark_completed(&mut self, duration_ms: u64)
        ensures
            final(self)@ == (ComponentView {
                status: ComponentStatus::Complete,
                timing: ComponentTiming { total_duration_ms: Some(duration_ms), ..old(self)@.timing },
                ..old(self)@
            }),
    {
        self.status = ComponentStatus::Complete;
        self.timing.total_duration_ms = Some(duration_ms);
    }

    pub fn mark_failed(&mut self, duration_ms: u64)
        ensures
            final(self)@ == (ComponentView {
                status: ComponentStatus::Failed,
                timing: ComponentTiming { total_duration_ms: Some(duration_ms), ..old(self)@.timing },
                ..old(self)@
            }),
    {
        self.status = ComponentStatus::Failed;
        self.timing.total_duration_ms = Some(duration_ms);
    }

    pub fn mark_deferred(&mut self, reason: String)
        ensures
            final(self)@ == deferred(old(self)@, reason@),
    {
        self.status = ComponentStatus::Deferred;
        self.deferred_reason = Some(reason);
    }
}

/// Position of the state for `id`, if any.
pub open spec fn id_position<R>(s: Seq<ComponentView<R>>, id: Seq<char>) -> Option<int>
    decreases s.len(),
{
    if s.len() == 0 {
        None
    } else if s[0].id == id {
        Some(0)
    } else {
        match id_position(s.drop_first(), id) {
            Some(i) => Some(i + 1),
            None => None,
        }
    }
}

/// No two states describe the same component.
pub open spec fn component_ids_unique<R>(s: Seq<ComponentView<R>>) -> bool {
    forall|i: int, j: int| 0 <= i < s.len() && 0 <= j < s.len() && i != j ==> s[i].id != s[j].id
}

/// The states with an entry for `id` (a fresh one is appended when missing).
pub open spec fn with_entry<R>(s: Seq<ComponentView<R>>, id: Seq<char>) -> Seq<ComponentView<R>> {
    match id_position(s, id) {
        Some(_) => s,
        None => s.push(fresh(id)),
    }
}

/// The states seeded for `ids`: one pending state per distinct id, in order
/// of first occurrence.
pub open spec fn seeded_states<R>(ids: Seq<Seq<char>>) -> Seq<ComponentView<R>>
    decreases ids.len(),
{
    if ids.len() == 0 {
        Seq::empty()
    } else {
        with_entry(seeded_states(ids.drop_last()), ids.last())
    }
}

/// Where the entry for `id` stands once it exists.
pub open spec fn entry_index<R>(s: Seq<ComponentView<R>>, id: Seq<char>) -> int {
    match id_position(s, id) {
        Some(i) => i,
        None => s.len() as int,
    }
}

/// The states after applying `f` to the entry for `id`.
pub open spec fn update_entry<R>(
    s: Seq<ComponentView<R>>,
    id: Seq<char>,
    f: spec_fn(ComponentView<R>) -> ComponentView<R>,
) -> Seq<ComponentView<R>> {
    let t = with_entry(s, id);
    let i = entry_index(s, id);
    t.update(i, f(t[i]))
}

/// The message recorded on a dependent of a deferred component.
pub open spec fn dependency_deferred_message(id: Seq<char>) -> Seq<char> {
    "Dependency "@ + id + " deferred"@
}

/// The states after deferring each of `deps`, in order.
pub open spec fn defer_all<R>(s: Seq<ComponentView<R>>, deps: Seq<Seq<char>>, reason: Seq<char>) -> Seq<
    ComponentView<R>,
>
    decreases deps.len(),
{
    if deps.len() == 0 {
        s
    } else {
        update_entry(
            defer_all(s, deps.drop_last(), reason),
            deps.last(),
            |c: ComponentView<R>| deferred(c, reason),
        )
    }
}

/// Summary of a whole bootstrap run.
#[derive(Debug, Clone, Copy, PartialEq, Eq, Structural)]
pub struct BootstrapStatus {
    pub started_at_ms: Option<u64>,
    pub total_components: Option<usize>,
    pub total_duration_ms: Option<u64>,
    pub successful: usize,
    pub failed: usize,
    pub deferred: usize,
}

/// The summary before any event.
pub open spec fn empty_status() -> BootstrapStatus {
    BootstrapStatus {
        started_at_ms: None,
        total_components: None,
        total_duration_ms: None,
        successful: 0,
        failed: 0,
        deferred: 0,
    }
}

impl Default for BootstrapStatus {
    fn default() -> (s: Self)
        ensures
            s == empty_status(),
    {
        BootstrapStatus {
            started_at_ms: None,
            total_components: None,
            total_duration_ms: None,
            successful: 0,
            failed: 0,
            deferred: 0,
        }
    }
}

/// The component states after an event observed at `now`.
pub open spec fn next_components<R>(s: Seq<ComponentView<R>>, p: EventPayload<R>, now: u64) -> Seq<
    ComponentView<R>,
> {
    match p {
        EventPayload::ComponentStarted { id } => update_entry(
            s,
            id@,
            |c: ComponentView<R>| started(c, now),
        ),
        EventPayload::ComponentProgress { id, status, elapsed_ms } => update_entry(
            s,
            id@,
            |c: ComponentView<R>| progressed(c, status, elapsed_ms),
        ),
        EventPayload::ComponentCompleted { id, duration_ms, timing_breakdown } => update_entry(
            s,
            id@,
            |c: ComponentView<R>| completed(c, duration_ms, timing_breakdown),
        ),
        EventPayload::ComponentFailed { id, duration_ms, error } => update_entry(
            s,
            id@,
            |c: ComponentView<R>| failed(c, duration_ms, error@),
        ),
        EventPayload::ComponentDeferred { id, reason, affected_dependents } => defer_all(
            update_entry(s, id@, |c: ComponentView<R>| deferred(c, reason@)),
            crate::text::views(affected_dependents@),
            dependency_deferred_message(id@),
        ),
        _ => s,
    }
}

/// The run summary after an event stamped `timestamp`.
pub open spec fn next_status<R>(st: BootstrapStatus, p: EventPayload<R>, timestamp: u64) -> BootstrapStatus {
    match p {
        EventPayload::Started { total_components } => BootstrapStatus {
            started_at_ms: Some(timestamp),
            total_components: Some(total_components),
            ..st
        },
        EventPayload::Completed { total_duration_ms, successful, failed, deferred } => BootstrapStatus {
            total_duration_ms: Some(total_duration_ms),
            successful,
            failed,
            deferred,
            ..st
        },
        _ => st,
    }
}

/// The components whose detailed report an event makes stale.
pub open spec fn stale_reports<R>(p: EventPayload<R>) -> Seq<Seq<char>> {
    match p {
        EventPayload::ComponentStarted { id } => seq![id@],
        EventPayload::ComponentCompleted { id, .. } => seq![id@],
        EventPayload::ComponentFailed { id, .. } => seq![id@],
        EventPayload::ComponentDeferred { id, affected_dependents, .. } => seq![id@]
            + crate::text::views(affected_dependents@),
        _ => Seq::empty(),
    }
}

/// The cached reports after dropping those of `ids`, in order.
pub open spec fn without_all<S>(s: Seq<SlotView<S>>, ids: Seq<Seq<char>>) -> Seq<SlotView<S>>
    decreases ids.len(),
{
    if ids.len() == 0 {
        s
    } else {
        without_slot(without_all(s, ids.drop_last()), ids.last())
    }
}

/// The states of all components, at most one per id, in order of first appearance.
pub struct ComponentStates<R> {
    items: Vec<ComponentState<R>>,
}

impl<R> View for ComponentStates<R> {
    type V = Seq<ComponentView<R>>;

    closed spec fn view(&self) -> Seq<ComponentView<R>> {
        self.items@.map_values(|c: ComponentState<R>| c@)
    }
}

proof fn lemma_id_position_spec<R>(s: Seq<ComponentView<R>>, id: Seq<char>)
    ensures
        match id_position(s, id) {
            Some(i) => 0 <= i < s.len() && s[i].id == id && forall|k: int| 0 <= k < i ==> s[k].id != id,
            None => forall|k: int| 0 <= k < s.len() ==> s[k].id != id,
        },
    decreases s.len(),
{
    if s.len() > 0 {
        lemma_id_position_spec(s.drop_first(), id);
        if s[0].id != id {
            match id_position(s.drop_first(), id) {
                Some(i) => {
                    assert forall|k: int| 0 <= k < i + 1 implies s[k].id != id by {
                        if k > 0 {
                            assert(s[k] == s.drop_first()[k - 1]);
                        }
                    }
                },
                None => {
                    assert forall|k: int| 0 <= k < s.len() implies s[k].id != id by {
                        if k > 0 {
                            assert(s[k] == s.drop_first()[k - 1]);
                        }
                    }
                },
            }
        }
    }
}

/// `with_entry` makes an entry for `id` at `entry_index`, keeps ids unique and
/// leaves every other entry where it was.
pub proof fn lemma_with_entry<R>(s: Seq<ComponentView<R>>, id: Seq<char>)
    requires
        component_ids_unique(s),
    ensures
        ({
            let t = with_entry(s, id);
            let i = entry_index(s, id);
            &&& component_ids_unique(t)
            &&& 0 <= i < t.len()
            &&& t[i].id == id
            &&& id_position(t, id) == Some(i)
            &&& t.len() >= s.len()
            &&& forall|k: int| 0 <= k < s.len() ==> #[trigger] t[k] == s[k]
            &&& id_position(s, id).is_none() ==> t[i] == fresh::<R>(id) && t.len() == s.len() + 1
            &&& id_position(s, id).is_some() ==> t == s
        }),
{
    lemma_id_position_spec(s, id);
    let t = with_entry(s, id);
    lemma_id_position_spec(t, id);
}

/// `update_entry` keeps ids unique when `f` keeps the id.
proof fn lemma_update_entry_unique<R>(
    s: Seq<ComponentView<R>>,
    id: Seq<char>,
    f: spec_fn(ComponentView<R>) -> ComponentView<R>,
)
    requires
        component_ids_unique(s),
        forall|c: ComponentView<R>| #[trigger] f(c).id == c.id,
    ensures
        component_ids_unique(update_entry(s, id, f)),
        update_entry(s, id, f).len() == with_entry(s, id).len(),
{
    lemma_with_entry(s, id);
}

impl<R> ComponentStates<R> {
    pub closed spec fn wf(&self) -> bool {
        component_ids_unique(self@)
    }

    /// Well-formed states hold at most one state per component, so the
    /// laws on component states apply to them.
    pub proof fn lemma_wf_ids_unique(&self)
        requires
            self.wf(),
        ensures
            component_ids_unique(self@),
    {
    }

    pub fn new() -> (s: Self)
        ensures
            s.wf(),
            s@ == Seq::<ComponentView<R>>::empty(),
    {
        let s = ComponentStates { items: Vec::new() };
        proof { assert(s@ =~= Seq::<ComponentView<R>>::empty()); }
        s
    }

    pub fn len(&self) -> (n: usize)
        ensures
            n == self@.len(),
    {
        self.items.len()
    }

    fn position(&self, id: &String) -> (r: Option<usize>)
        ensures
            match r {
                Some(i) => id_position(self@, id@) == Some(i as int) && i < self@.len(),
                None => id_position(self@, id@).is_none(),
            },
    {
        proof { lemma_id_position_spec(self@, id@); }
        let mut i: usize = 0;
        while i < self.items.len()
            invariant
                0 <= i <= self.items.len(),
                forall|k: int| 0 <= k < i ==> self@[k].id != id@,
            decreases self.items.len() - i,
        {
            if self.items[i].id == *id {
                proof {
                    lemma_id_position_spec(self@, id@);
                    match id_position(self@, id@) {
                        Some(p) => {
                            if p > i {
                                assert(self@[i as int].id != id@);
                            }
                        },
                        None => {
                            assert(self@[i as int].id != id@);
                        },
                    }
                }
                return Some(i);
            }
            i = i + 1;
        }
        None
    }

    /// The state of component `id`, if known.
    pub fn get(&self, id: &str) -> (r: Option<&ComponentState<R>>)
        ensures
            match id_position(self@, id@) {
                Some(i) => r matches Some(c) && c@ == self@[i],
                None => r.is_none(),
            },
    {
        let key = id.to_owned();
        match self.position(&key) {
            Some(i) => Some(&self.items[i]),
            None => None,
        }
    }

    fn entry(&mut self, id: &String) -> (i: usize)
        requires
            old(self).wf(),
        ensures
            final(self).wf(),
            final(self)@ == with_entry(old(self)@, id@),
            i as int == entry_index(old(self)@, id@),
            i < final(self)@.len(),
    {
        proof { lemma_with_entry(self@, id@); }
        match self.position(id) {
            Some(i) => i,
            None => {
                let ghost s = self@;
                self.items.push(ComponentState::new(id.clone()));
                proof { assert(self@ =~= s.push(fresh(id@))); }
                self.items.len() - 1
            },
        }
    }

    /// Seeds one pending state per id (duplicates collapse into one).
    pub fn seeded(ids: &Vec<String>) -> (s: Self)
        ensures
            s.wf(),
            s@ == seeded_states::<R>(crate::text::views(ids@)),
            forall|k: int| 0 <= k < ids@.len() ==> #[trigger] id_position(s@, ids@[k]@).is_some(),
            forall|k: int| 0 <= k < s@.len() ==> #[trigger] s@[k].status == ComponentStatus::Pending,
    {
        let mut s = ComponentStates::new();
        let mut j: usize = 0;
        let ghost names = crate::text::views(ids@);
        proof {
            assert(names.take(0) =~= Seq::<Seq<char>>::empty());
        }
        while j < ids.len()
            invariant
                0 <= j <= ids.len(),
                s.wf(),
                names == crate::text::views(ids@),
                s@ == seeded_states::<R>(names.take(j as int)),
                forall|k: int| 0 <= k < j ==> #[trigger] id_position(s@, ids@[k]@).is_some(),
                forall|k: int| 0 <= k < s@.len() ==> #[trigger] s@[k].status == ComponentStatus::Pending,
            decreases ids.len() - j,
        {
            let ghost before = s@;
            let _ = s.entry(&ids[j]);
            proof {
                assert(names.take(j + 1).drop_last() =~= names.take(j as int));
                assert(names.take(j + 1).last() == ids@[j as int]@);
                lemma_with_entry(before, ids@[j as int]@);
                assert forall|k: int| 0 <= k < j + 1 implies #[trigger] id_position(s@, ids@[k]@).is_some() by {
                    if k < j {
                        let key = ids@[k]@;
                        lemma_id_position_spec(before, key);
                        lemma_id_position_spec(s@, key);
                        let p = id_position(before, key).unwrap();
                        assert(s@[p] == before[p]);
                    }
                }
            }
            j = j + 1;
        }
        proof {
            assert(names.take(ids.len() as int) =~= names);
        }
        s
    }

    fn apply_started(&mut self, id: &String, now: u64)
        requires
            old(self).wf(),
        ensures
            final(self).wf(),
            final(self)@ == update_entry(old(self)@, id@, |c: ComponentView<R>| started(c, now)),
    {
        let ghost s = self@;
        let i = self.entry(id);
        let finished = match self.items[i].status {
            ComponentStatus::Complete | ComponentStatus::Failed | ComponentStatus::Deferred => true,
            _ => false,
        };
        if finished {
            self.items[i].timing.started_at_ms = Some(now);
        } else {
            self.items[i].mark_running(now);
            self.items[i].deferred_reason = None;
        }
        proof {
            lemma_update_entry_unique(s, id@, |c: ComponentView<R>| started(c, now));
            assert(self@ =~= update_entry(s, id@, |c: ComponentView<R>| started(c, now)));
        }
    }

    fn apply_progress(&mut self, id: &String, readiness: R, elapsed: u64)
        requires
            old(self).wf(),
        ensures
            final(self).wf(),
            final(self)@ == update_entry(
                old(self)@,
                id@,
                |c: ComponentView<R>| progressed(c, readiness, elapsed),
            ),
    {
        let ghost s = self@;
        let i = self.entry(id);
        let finished = match self.items[i].status {
            ComponentStatus::Complete | ComponentStatus::Failed | ComponentStatus::Deferred => true,
            _ => false,
        };
        if !finished {
            self.items[i].status = ComponentStatus::Running;
        }
        self.items[i].readiness = Some(readiness);
        self.items[i].timing.update_elapsed(elapsed);
        proof {
            lemma_update_entry_unique(s, id@, |c: ComponentView<R>| progressed(c, readiness, elapsed));
            assert(self@ =~= update_entry(s, id@, |c: ComponentView<R>| progressed(c, readiness, elapsed)));
        }
    }

    fn apply_completed(&mut self, id: &String, duration: u64, b: TimingBreakdown)
        requires
            old(self).wf(),
        ensures
            final(self).wf(),
            final(self)@ == update_entry(
                old(self)@,
                id@,
                |c: ComponentView<R>| completed(c, duration, b),
            ),
    {
        let ghost s = self@;
        let i = self.entry(id);
        self.items[i].mark_completed(duration);
        self.items[i].timing.render_duration_ms = Some(b.render_duration_ms);
        self.items[i].timing.apply_duration_ms = Some(b.apply_duration_ms);
        self.items[i].timing.wait_duration_ms = Some(b.wait_duration_ms);
        proof {
            lemma_update_entry_unique(s, id@, |c: ComponentView<R>| completed(c, duration, b));
            assert(self@ =~= update_entry(s, id@, |c: ComponentView<R>| completed(c, duration, b)));
        }
    }

    fn apply_failed(&mut self, id: &String, duration: u64, error: String)
        requires
            old(self).wf(),
        ensures
            final(self).wf(),
            final(self)@ == update_entry(
                old(self)@,
                id@,
                |c: ComponentView<R>| failed(c, duration, error@),
            ),
    {
        let ghost s = self@;
        let ghost e = error@;
        let i = self.entry(id);
        self.items[i].mark_failed(duration);
        self.items[i].deferred_reason = Some(error);
        proof {
            lemma_update_entry_unique(s, id@, |c: ComponentView<R>| failed(c, duration, e));
            assert(self@ =~= update_entry(s, id@, |c: ComponentView<R>| failed(c, duration, e)));
        }
    }

    fn apply_deferred(&mut self, id: &String, reason: String)
        requires
            old(self).wf(),
        ensures
            final(self).wf(),
            final(self)@ == update_entry(old(self)@, id@, |c: ComponentView<R>| deferred(c, reason@)),
    {
        let ghost s = self@;
        let ghost r = reason@;
        let i = self.entry(id);
        self.items[i].mark_deferred(reason);
        proof {
            lemma_update_entry_unique(s, id@, |c: ComponentView<R>| deferred(c, r));
            assert(self@ =~= update_entry(s, id@, |c: ComponentView<R>| deferred(c, r)));
        }
    }
}


fn dependency_message(id: &String) -> (m: String)
    ensures
        m@ == dependency_deferred_message(id@),
{
    let mut m = "Dependency ".to_owned();
    m.append(id.as_str());
    m.append(" deferred");
    m
}

fn defer_dependents<R>(states: &mut ComponentStates<R>, deps: &Vec<String>, id: &String)
    requires
        old(states).wf(),
    ensures
        final(states).wf(),
        final(states)@ == defer_all(old(states)@, crate::text::views(deps@), dependency_deferred_message(id@)),
{
    let ghost base = states@;
    let ghost all = crate::text::views(deps@);
    let ghost msg = dependency_deferred_message(id@);
    let mut k: usize = 0;
    proof {
        assert(all.take(0) =~= Seq::<Seq<char>>::empty());
    }
    while k < deps.len()
        invariant
            0 <= k <= deps.len(),
            all == crate::text::views(deps@),
            msg == dependency_deferred_message(id@),
            states.wf(),
            states@ == defer_all(base, all.take(k as int), msg),
        decreases deps.len() - k,
    {
        let m = dependency_message(id);
        states.apply_deferred(&deps[k], m);
        proof {
            assert(all.take(k + 1).drop_last() =~= all.take(k as int));
            assert(all.take(k + 1).last() == deps@[k as int]@);
        }
        k = k + 1;
    }
    proof {
        assert(all.take(deps.len() as int) =~= all);
    }
}

fn invalidate_all<S>(cache: &mut DetailedStatusCache<S>, ids: &Vec<String>)
    requires
        old(cache).wf(),
    ensures
        final(cache).wf(),
        final(cache)@ == without_all(old(cache)@, crate::text::views(ids@)),
        final(cache).ttl() == old(cache).ttl(),
{
    let ghost base = cache@;
    let ghost all = crate::text::views(ids@);
    let mut k: usize = 0;
    proof {
        assert(all.take(0) =~= Seq::<Seq<char>>::empty());
    }
    while k < ids.len()
        invariant
            0 <= k <= ids.len(),
            all == crate::text::views(ids@),
            cache.wf(),
            cache.ttl() == old(cache).ttl(),
            cache@ == without_all(base, all.take(k as int)),
        decreases ids.len() - k,
    {
        cache.invalidate(ids[k].as_str());
        proof {
            assert(all.take(k + 1).drop_last() =~= all.take(k as int));
            assert(all.take(k + 1).last() == ids@[k as int]@);
        }
        k = k + 1;
    }
    proof {
        assert(all.take(ids.len() as int) =~= all);
    }
}

proof fn lemma_without_all_prepend<S>(s: Seq<SlotView<S>>, first: Seq<char>, rest: Seq<Seq<char>>)
    ensures
        without_all(without_slot(s, first), rest) == without_all(s, seq![first] + rest),
    decreases rest.len(),
{
    reveal_with_fuel(without_all, 2);
    if rest.len() == 0 {
        assert((seq![first] + rest).drop_last() =~= Seq::<Seq<char>>::empty());
        assert(seq![first] + rest =~= seq![first]);
    } else {
        lemma_without_all_prepend(s, first, rest.drop_last());
        assert((seq![first] + rest).drop_last() =~= seq![first] + rest.drop_last());
        assert((seq![first] + rest).last() == rest.last());
    }
}

/// Folds one bootstrap event into the component states, the run summary and
/// the detailed-report cache. `now_ms` is the time the event is handled.
pub fn process_event<R, S>(
    event: BootstrapEvent<R>,
    state: &mut ComponentStates<R>,
    status: &mut BootstrapStatus,
    detailed_cache: &mut DetailedStatusCache<S>,
    now_ms: u64,
)
    requires
        old(state).wf(),
        old(detailed_cache).wf(),
    ensures
        final(state).wf(),
        final(detailed_cache).wf(),
        final(state)@ == next_components(old(state)@, event.payload, now_ms),
        *final(status) == next_status(*old(status), event.payload, event.timestamp_ms),
        event.payload matches EventPayload::Completed { total_duration_ms, successful, failed, deferred } ==> (
        final(status).total_duration_ms == Some(total_duration_ms) && final(status).successful == successful
            && final(status).failed == failed && final(status).deferred == deferred),
        event.payload matches EventPayload::Started { total_components } ==> (final(status).started_at_ms == Some(
            event.timestamp_ms,
        ) && final(status).total_components == Some(total_components)),
        final(detailed_cache)@ == without_all(old(detailed_cache)@, stale_reports(event.payload)),
        final(detailed_cache).ttl() == old(detailed_cache).ttl(),
{
    let ghost payload = event.payload;
    let timestamp = event.timestamp_ms;
    proof {
        reveal_with_fuel(without_all, 2);
    }
    match event.payload {
        EventPayload::Started { total_components } => {
            status.started_at_ms = Some(timestamp);
            status.total_components = Some(total_components);
            proof { assert(detailed_cache@ =~= without_all(old(detailed_cache)@, Seq::empty())); }
        },
        EventPayload::ComponentStarted { id } => {
            state.apply_started(&id, now_ms);
            detailed_cache.invalidate(id.as_str());
            proof {
                assert(seq![id@].drop_last() =~= Seq::<Seq<char>>::empty());
                assert(detailed_cache@ == without_all(old(detailed_cache)@, stale_reports(payload)));
            }
        },
        EventPayload::ComponentProgress { id, status: readiness, elapsed_ms } => {
            state.apply_progress(&id, readiness, elapsed_ms);
            proof { assert(detailed_cache@ == without_all(old(detailed_cache)@, stale_reports(payload))); }
        },
        EventPayload::ComponentCompleted { id, duration_ms, timing_breakdown } => {
            state.apply_completed(&id, duration_ms, timing_breakdown);
            detailed_cache.invalidate(id.as_str());
            proof {
                assert(seq![id@].drop_last() =~= Seq::<Seq<char>>::empty());
                assert(detailed_cache@ == without_all(old(detailed_cache)@, stale_reports(payload)));
            }
        },
        EventPayload::ComponentFailed { id, duration_ms, error } => {
            state.apply_failed(&id, duration_ms, error);
            detailed_cache.invalidate(id.as_str());
            proof {
                assert(seq![id@].drop_last() =~= Seq::<Seq<char>>::empty());
                assert(detailed_cache@ == without_all(old(detailed_cache)@, stale_reports(payload)));
            }
        },
        EventPayload::ComponentDeferred { id, reason, affected_dependents } => {
            state.apply_deferred(&id, reason);
            defer_dependents(state, &affected_dependents, &id);
            let ghost c0 = detailed_cache@;
            detailed_cache.invalidate(id.as_str());
            invalidate_all(detailed_cache, &affected_dependents);
            proof {
                assert(seq![id@].drop_last() =~= Seq::<Seq<char>>::empty());
                reveal_with_fuel(without_all, 2);
                assert(without_all(c0, seq![id@]) == without_slot(c0, id@));
                lemma_without_all_prepend(c0, id@, crate::text::views(affected_dependents@));
                assert(detailed_cache@ == without_all(old(detailed_cache)@, stale_reports(payload)));
            }
        },
        EventPayload::Completed { total_duration_ms, successful, failed, deferred } => {
            status.total_duration_ms = Some(total_duration_ms);
            status.successful = successful;
            status.failed = failed;
            status.deferred = deferred;
            proof { assert(detailed_cache@ == without_all(old(detailed_cache)@, stale_reports(payload))); }
        },
        _ => {
            proof { assert(detailed_cache@ == without_all(old(detailed_cache)@, stale_reports(payload))); }
        },
    }
}


/// The components an event names: its subject and, for a deferral, the
/// dependents deferred with it.
pub open spec fn named_components<R>(p: EventPayload<R>) -> Seq<Seq<char>> {
    match p {
        EventPayload::ComponentProgress { id, .. } => seq![id@],
        _ => stale_reports(p),
    }
}

/// `t` grew out of `s` by an event naming `names`: every state of `s` keeps
/// its place and its id, no status moves backwards, those not named are
/// untouched, every named component has a state, and every added state is
/// of a named component.
pub open spec fn evolves<R>(s: Seq<ComponentView<R>>, t: Seq<ComponentView<R>>, names: Seq<Seq<char>>) -> bool {
    &&& t.len() >= s.len()
    &&& forall|k: int| 0 <= k < s.len() ==> #[trigger] t[k].id == s[k].id
    &&& forall|k: int|
        0 <= k < s.len() ==> status_rank(#[trigger] t[k].status) >= status_rank(s[k].status)
    &&& forall|k: int| 0 <= k < s.len() && !names.contains(s[k].id) ==> #[trigger] t[k] == s[k]
    &&& forall|m: Seq<char>| #[trigger] names.contains(m) ==> id_position(t, m).is_some()
    &&& forall|k: int| s.len() <= k < t.len() ==> names.contains(#[trigger] t[k].id)
}

proof fn lemma_update_entry_evolves<R>(
    s: Seq<ComponentView<R>>,
    id: Seq<char>,
    f: spec_fn(ComponentView<R>) -> ComponentView<R>,
)
    requires
        component_ids_unique(s),
        forall|c: ComponentView<R>| #[trigger] f(c).id == c.id,
        forall|c: ComponentView<R>| status_rank(#[trigger] f(c).status) >= status_rank(c.status),
    ensures
        evolves(s, update_entry(s, id, f), seq![id]),
        component_ids_unique(update_entry(s, id, f)),
{
    lemma_with_entry(s, id);
    lemma_update_entry_unique(s, id, f);
    let t = update_entry(s, id, f);
    let i = entry_index(s, id);
    lemma_id_position_spec(t, id);
    assert forall|m: Seq<char>| #[trigger] seq![id].contains(m) implies id_position(t, m).is_some() by {
        assert(seq![id][0] == m);
        assert(t[i].id == id);
    }
    assert forall|k: int| 0 <= k < s.len() && !seq![id].contains(s[k].id) implies #[trigger] t[k] == s[k] by {
        if k == i {
            assert(seq![id][0] == id);
        }
    }
    assert forall|k: int| s.len() <= k < t.len() implies seq![id].contains(#[trigger] t[k].id) by {
        assert(k == i);
        assert(seq![id][0] == id);
    }
}

proof fn lemma_evolves_trans<R>(
    s: Seq<ComponentView<R>>,
    u: Seq<ComponentView<R>>,
    t: Seq<ComponentView<R>>,
    n1: Seq<Seq<char>>,
    n2: Seq<Seq<char>>,
)
    requires
        evolves(s, u, n1),
        evolves(u, t, n2),
    ensures
        evolves(s, t, n1 + n2),
{
    assert forall|k: int| 0 <= k < s.len() && !(n1 + n2).contains(s[k].id) implies #[trigger] t[k] == s[k] by {
        if n1.contains(s[k].id) {
            let j = choose|j: int| 0 <= j < n1.len() && n1[j] == s[k].id;
            assert((n1 + n2)[j] == s[k].id);
        }
        if n2.contains(u[k].id) {
            let j = choose|j: int| 0 <= j < n2.len() && n2[j] == u[k].id;
            assert((n1 + n2)[n1.len() + j] == s[k].id);
        }
    }
    assert forall|m: Seq<char>| #[trigger] (n1 + n2).contains(m) implies id_position(t, m).is_some() by {
        let j = choose|j: int| 0 <= j < (n1 + n2).len() && (n1 + n2)[j] == m;
        if j < n1.len() {
            assert(n1[j] == m);
            assert(n1.contains(m));
            lemma_id_position_spec(u, m);
            let p = id_position(u, m).unwrap();
            assert(t[p].id == m);
            lemma_id_position_spec(t, m);
        } else {
            assert(n2[j - n1.len()] == m);
            assert(n2.contains(m));
        }
    }
    assert forall|k: int| 0 <= k < s.len() implies status_rank(#[trigger] t[k].status) >= status_rank(
        s[k].status,
    ) by {
        assert(status_rank(u[k].status) >= status_rank(s[k].status));
        assert(status_rank(t[k].status) >= status_rank(u[k].status));
    }
    assert forall|k: int| s.len() <= k < t.len() implies (n1 + n2).contains(#[trigger] t[k].id) by {
        if k < u.len() {
            assert(n1.contains(u[k].id));
            let j = choose|j: int| 0 <= j < n1.len() && n1[j] == u[k].id;
            assert((n1 + n2)[j] == t[k].id);
        } else {
            assert(n2.contains(t[k].id));
            let j = choose|j: int| 0 <= j < n2.len() && n2[j] == t[k].id;
            assert((n1 + n2)[n1.len() + j] == t[k].id);
        }
    }
}

proof fn lemma_defer_all_evolves<R>(s: Seq<ComponentView<R>>, deps: Seq<Seq<char>>, reason: Seq<char>)
    requires
        component_ids_unique(s),
    ensures
        evolves(s, defer_all(s, deps, reason), deps),
        component_ids_unique(defer_all(s, deps, reason)),
    decreases deps.len(),
{
    if deps.len() == 0 {
        assert(defer_all(s, deps, reason) == s);
    } else {
        let u = defer_all(s, deps.drop_last(), reason);
        lemma_defer_all_evolves(s, deps.drop_last(), reason);
        let f = |c: ComponentView<R>| deferred(c, reason);
        lemma_update_entry_evolves(u, deps.last(), f);
        lemma_evolves_trans(s, u, update_entry(u, deps.last(), f), deps.drop_last(), seq![deps.last()]);
        assert(deps.drop_last() + seq![deps.last()] =~= deps);
    }
}

/// What one event does to the component states: ids stay unique, every
/// known component keeps its place, no status moves backwards along
/// pending, running, finished (so a finished component stays finished),
/// components the event does not name are untouched, each component it
/// names has a state afterwards, and no other component is added.
pub proof fn lemma_event_projection<R>(s: Seq<ComponentView<R>>, p: EventPayload<R>, now: u64)
    requires
        component_ids_unique(s),
    ensures
        component_ids_unique(next_components(s, p, now)),
        evolves(s, next_components(s, p, now), named_components(p)),
{
    match p {
        EventPayload::ComponentStarted { id } => {
            lemma_update_entry_evolves(s, id@, |c: ComponentView<R>| started(c, now));
        },
        EventPayload::ComponentProgress { id, status, elapsed_ms } => {
            lemma_update_entry_evolves(s, id@, |c: ComponentView<R>| progressed(c, status, elapsed_ms));
        },
        EventPayload::ComponentCompleted { id, duration_ms, timing_breakdown } => {
            lemma_update_entry_evolves(
                s,
                id@,
                |c: ComponentView<R>| completed(c, duration_ms, timing_breakdown),
            );
        },
        EventPayload::ComponentFailed { id, duration_ms, error } => {
            lemma_update_entry_evolves(s, id@, |c: ComponentView<R>| failed(c, duration_ms, error@));
        },
        EventPayload::ComponentDeferred { id, reason, affected_dependents } => {
            let f = |c: ComponentView<R>| deferred(c, reason@);
            let u = update_entry(s, id@, f);
            lemma_update_entry_evolves(s, id@, f);
            let deps = crate::text::views(affected_dependents@);
            lemma_defer_all_evolves(u, deps, dependency_deferred_message(id@));
            lemma_evolves_trans(s, u, next_components(s, p, now), seq![id@], deps);
        },
        _ => {
            assert(named_components(p) =~= Seq::<Seq<char>>::empty());
        },
    }
}

/// Applying one evolution after another is again an evolution, naming both
/// sets of components; so the laws of single events extend to whole streams.
pub proof fn lemma_evolution_composes<R>(
    s: Seq<ComponentView<R>>,
    u: Seq<ComponentView<R>>,
    t: Seq<ComponentView<R>>,
    n1: Seq<Seq<char>>,
    n2: Seq<Seq<char>>,
)
    requires
        evolves(s, u, n1),
        evolves(u, t, n2),
    ensures
        evolves(s, t, n1 + n2),
{
    lemma_evolves_trans(s, u, t, n1, n2);
}

/// A start or progress report on a component that has finished (complete,
/// failed or deferred) leaves its status as it was.
pub proof fn lemma_finished_status_kept<R>(s: Seq<ComponentView<R>>, p: EventPayload<R>, now: u64, i: int)
    requires
        component_ids_unique(s),
        0 <= i < s.len(),
        is_finished(s[i].status),
        (p matches EventPayload::ComponentStarted { id } && id@ == s[i].id)
            || (p matches EventPayload::ComponentProgress { id, .. } && id@ == s[i].id),
    ensures
        next_components(s, p, now)[i].status == s[i].status,
{
    lemma_id_position_spec(s, s[i].id);
    if let Some(j) = id_position(s, s[i].id) {
        if j != i {
            assert(s[j].id == s[i].id);
        }
    }
}

/// The states seeded for a list of ids: exactly one fresh (pending, empty)
/// state for each distinct id of the list, and none for any other id.
pub proof fn lemma_seeded_states<R>(ids: Seq<Seq<char>>)
    ensures
        component_ids_unique(seeded_states::<R>(ids)),
        forall|k: int|
            0 <= k < seeded_states::<R>(ids).len() ==> #[trigger] seeded_states::<R>(ids)[k] == fresh::<R>(
                seeded_states::<R>(ids)[k].id,
            ) && ids.contains(seeded_states::<R>(ids)[k].id),
        forall|m: Seq<char>| #[trigger] ids.contains(m) ==> id_position(seeded_states::<R>(ids), m).is_some(),
    decreases ids.len(),
{
    if ids.len() > 0 {
        let prev = ids.drop_last();
        lemma_seeded_states::<R>(prev);
        let s = seeded_states::<R>(prev);
        let id = ids.last();
        lemma_with_entry(s, id);
        let t = seeded_states::<R>(ids);
        assert(t == with_entry(s, id));
        assert forall|k: int| 0 <= k < t.len() implies #[trigger] t[k] == fresh::<R>(t[k].id) && ids.contains(
            t[k].id,
        ) by {
            if k < s.len() {
                assert(t[k] == s[k]);
                let j = choose|j: int| 0 <= j < prev.len() && prev[j] == s[k].id;
                assert(ids[j] == prev[j]);
            } else {
                lemma_id_position_spec(s, id);
                assert(ids[ids.len() - 1] == id);
            }
        }
        assert forall|m: Seq<char>| #[trigger] ids.contains(m) implies id_position(t, m).is_some() by {
            let j = choose|j: int| 0 <= j < ids.len() && ids[j] == m;
            if j < prev.len() {
                assert(prev[j] == m);
                assert(prev.contains(m));
                lemma_id_position_spec(s, m);
                let q = id_position(s, m).unwrap();
                assert(t[q].id == m);
                lemma_id_position_spec(t, m);
            }
        }
    } else {
        assert forall|m: Seq<char>| #[trigger] ids.contains(m) implies id_position(seeded_states::<R>(ids), m).is_some() by {}
    }
}

/// The states grown by events out of those seeded for an assembly's ids
/// still hold a state for every one of those ids.
pub proof fn lemma_assembly_ids_stay<R>(ids: Seq<Seq<char>>, t: Seq<ComponentView<R>>, names: Seq<Seq<char>>)
    requires
        evolves(seeded_states::<R>(ids), t, names),
    ensures
        forall|m: Seq<char>| #[trigger] ids.contains(m) ==> id_position(t, m).is_some(),
{
    lemma_seeded_states::<R>(ids);
    let s = seeded_states::<R>(ids);
    assert forall|m: Seq<char>| #[trigger] ids.contains(m) implies id_position(t, m).is_some() by {
        lemma_id_position_spec(s, m);
        let i = id_position(s, m).unwrap();
        assert(t[i].id == m);
        lemma_id_position_spec(t, m);
    }
}

/// The components known after an event are exactly those known before it
/// together with those the event names; every component it does not name
/// keeps its state.
pub proof fn lemma_event_keys<R>(s: Seq<ComponentView<R>>, p: EventPayload<R>, now: u64)
    requires
        component_ids_unique(s),
    ensures
        forall|m: Seq<char>|
            #[trigger] id_position(next_components(s, p, now), m).is_some() <==> (id_position(s, m).is_some()
                || named_components(p).contains(m)),
        forall|m: Seq<char>|
            #![trigger id_position(s, m)]
            id_position(s, m).is_some() && !named_components(p).contains(m) ==> next_components(s, p, now)[id_position(
                s,
                m,
            ).unwrap()] == s[id_position(s, m).unwrap()],
{
    lemma_event_projection(s, p, now);
    let t = next_components(s, p, now);
    let names = named_components(p);
    assert forall|m: Seq<char>| #[trigger] id_position(t, m).is_some() <==> (id_position(s, m).is_some()
        || names.contains(m)) by {
        lemma_id_position_spec(s, m);
        lemma_id_position_spec(t, m);
        if let Some(k) = id_position(t, m) {
            if k < s.len() {
                assert(s[k].id == m);
            } else {
                assert(names.contains(t[k].id));
            }
        }
        if let Some(i) = id_position(s, m) {
            assert(t[i].id == m);
        }
    }
    assert forall|m: Seq<char>|
        #![trigger id_position(s, m)]
        id_position(s, m).is_some() && !names.contains(m) implies t[id_position(s, m).unwrap()] == s[id_position(
            s,
            m,
        ).unwrap()] by {
        lemma_id_position_spec(s, m);
    }
}

/// What `process_event` does to well-formed component states and the run
/// summary: no component is ever dropped, the components known afterwards
/// are those known before together with those the event names, every
/// component it does not name keeps its state, a start or progress report
/// on a finished component leaves its status, and an event about a single
/// component leaves the run summary as it was.
pub proof fn lemma_process_event_law<R>(
    state: &ComponentStates<R>,
    status: BootstrapStatus,
    event: BootstrapEvent<R>,
    now_ms: u64,
)
    requires
        state.wf(),
    ensures
        ({
            let s = state@;
            let t = next_components(s, event.payload, now_ms);
            let names = named_components(event.payload);
            &&& forall|m: Seq<char>|
                #[trigger] id_position(t, m).is_some() <==> (id_position(s, m).is_some() || names.contains(m))
            &&& forall|m: Seq<char>|
                #![trigger id_position(s, m)]
                id_position(s, m).is_some() && !names.contains(m) ==> t[id_position(s, m).unwrap()]
                    == s[id_position(s, m).unwrap()]
            &&& forall|i: int|
                0 <= i < s.len() && is_finished(s[i].status) && ((event.payload matches EventPayload::ComponentStarted {
                    id,
                } && id@ == s[i].id) || (event.payload matches EventPayload::ComponentProgress { id, .. } && id@
                    == s[i].id)) ==> #[trigger] t[i].status == s[i].status
        }),
        (event.payload is ComponentStarted || event.payload is ComponentProgress
            || event.payload is ComponentCompleted || event.payload is ComponentFailed
            || event.payload is ComponentDeferred) ==> next_status(status, event.payload, event.timestamp_ms)
            == status,
{
    let s = state@;
    lemma_event_keys(s, event.payload, now_ms);
    assert forall|i: int|
        0 <= i < s.len() && is_finished(s[i].status) && ((event.payload matches EventPayload::ComponentStarted {
            id,
        } && id@ == s[i].id) || (event.payload matches EventPayload::ComponentProgress { id, .. } && id@
            == s[i].id)) implies #[trigger] next_components(s, event.payload, now_ms)[i].status == s[i].status by {
        lemma_finished_status_kept(s, event.payload, now_ms, i);
    }
}

/// What an event does to the run summary: a start records the event's time
/// as the start and the announced number of components; a completion
/// records the total duration and the successful, failed and deferred
/// counts exactly as the event reports them; each leaves every other field
/// as it was, and any other event leaves the summary unchanged.
pub proof fn lemma_run_summary<R>(st: BootstrapStatus, p: EventPayload<R>, timestamp: u64)
    ensures
        p matches EventPayload::Started { total_components } ==> ({
            let n = next_status(st, p, timestamp);
            &&& n.started_at_ms == Some(timestamp)
            &&& n.total_components == Some(total_components)
            &&& n.total_duration_ms == st.total_duration_ms
            &&& n.successful == st.successful
            &&& n.failed == st.failed
            &&& n.deferred == st.deferred
        }),
        p matches EventPayload::Completed { total_duration_ms, successful, failed, deferred } ==> ({
            let n = next_status(st, p, timestamp);
            &&& n.total_duration_ms == Some(total_duration_ms)
            &&& n.successful == successful
            &&& n.failed == failed
            &&& n.deferred == deferred
            &&& n.started_at_ms == st.started_at_ms
            &&& n.total_components == st.total_components
        }),
        !(p is Started) && !(p is Completed) ==> next_status(st, p, timestamp) == st,
{
}

} // verus!
