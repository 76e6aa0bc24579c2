//! The bootstrap adapter: the UI-side projection of a bootstrap run, fed by
//! the engine's event stream.
//!
//! The event subscription, the cluster queries and the command channel are
//! driven from the edge; this type keeps what they feed it and decides what
//! each event changes.

use crate::access::AccessUrlInfo;
use crate::assembly::Step;
use crate::cache::{clock_now, millis_since};
use crate::events::{BootstrapEvent, EventPayload};
use crate::projection::{
    id_position, is_finished, lemma_process_event_law, named_components,
    next_components, next_status, process_event, stale_reports, without_all, BootstrapStatus,
    ComponentStates, ComponentView,
};
use crate::status_cache::{lookup_answer, with_slot, DetailedStatusCache, SlotView};
use std::time::Instant;
use vstd::prelude::*;

verus! {

/// How long a detailed status report stays valid, in milliseconds.
pub const DETAILED_STATUS_TTL_MS: u64 = 5_000;

/// The ids of the steps, in order.
pub open spec fn step_ids(steps: Seq<Step>) -> Seq<Seq<char>> {
    steps.map_values(|s: Step| s.id@)
}

/// Position of the first step with id `id`.
pub open spec fn step_position(steps: Seq<Step>, id: Seq<char>) -> Option<int>
    decreases steps.len(),
{
    if steps.len() == 0 {
        None
    } else if steps[0].id@ == id {
        Some(0)
    } else {
        match step_position(steps.drop_first(), id) {
            Some(i) => Some(i + 1),
            None => None,
        }
    }
}

proof fn lemma_step_position(steps: Seq<Step>, id: Seq<char>)
    ensures
        match step_position(steps, id) {
            Some(i) => 0 <= i < steps.len() && steps[i].id@ == id && forall|k: int|
                0 <= k < i ==> steps[k].id@ != id,
            None => forall|k: int| 0 <= k < steps.len() ==> steps[k].id@ != id,
        },
    decreases steps.len(),
{
    if steps.len() > 0 {
        lemma_step_position(steps.drop_first(), id);
        if steps[0].id@ != id {
            assert forall|k: int| 0 < k < steps.len() implies steps[k] == steps.drop_first()[k - 1] by {}
        }
    }
}

/// Whether an event is the end of a run, after which the access URLs and
/// the timing history are fetched again.
pub fn refreshes_after<R>(payload: &EventPayload<R>) -> (r: bool)
    ensures
        r == (payload is Completed),
{
    match payload {
        EventPayload::Completed { .. } => true,
        _ => false,
    }
}

/// The state the bootstrap UI reads: component states, run summary, cached
/// detailed reports (type `S`), the timing history (type `H`) and the
/// access URLs, for the assembly it was created with. `R` is the engine's
/// readiness report.
pub struct BootstrapAdapter<R, S, H> {
    state: ComponentStates<R>,
    status: BootstrapStatus,
    detailed_cache: DetailedStatusCache<S>,
    timing_history: Option<H>,
    access_urls: Vec<AccessUrlInfo>,
    assembly: Vec<Step>,
    epoch: Instant,
}

impl<R, S, H> BootstrapAdapter<R, S, H> {
    pub closed spec fn wf(&self) -> bool {
        &&& self.state.wf()
        &&& self.detailed_cache.wf()
        &&& self.detailed_cache.ttl() == DETAILED_STATUS_TTL_MS
    }

    /// A well-formed adapter holds at most one state per component and at
    /// most one cached report per component, and reports live for
    /// `DETAILED_STATUS_TTL_MS`.
    pub proof fn lemma_wf_parts(&self)
        requires
            self.wf(),
        ensures
            crate::projection::component_ids_unique(self.components()),
            crate::status_cache::ids_unique(self.reports()),
    {
        self.state.lemma_wf_ids_unique();
        self.detailed_cache.lemma_wf_ids_unique();
    }

    /// What one event does to a well-formed adapter: no component is ever
    /// dropped, the components known afterwards are those known before
    /// together with those the event names, every component it does not
    /// name keeps its state, a start or progress report on a finished
    /// component leaves its status, and an event about a single component
    /// leaves the run summary as it was.
    pub proof fn lemma_event_law(&self, event: BootstrapEvent<R>, now_ms: u64)
        requires
            self.wf(),
        ensures
            ({
                let s = self.components();
                let t = next_components(s, event.payload, now_ms);
                let names = named_components(event.payload);
                &&& forall|m: Seq<char>|
                    #[trigger] id_position(t, m).is_some() <==> (id_position(s, m).is_some()
                        || names.contains(m))
                &&& forall|m: Seq<char>|
                    #![trigger id_position(s, m)]
                    id_position(s, m).is_some() && !names.contains(m) ==> t[id_position(s, m).unwrap()]
                        == s[id_position(s, m).unwrap()]
                &&& forall|i: int|
                    0 <= i < s.len() && is_finished(s[i].status) && ((event.payload matches EventPayload::ComponentStarted { id } && id@ == s[i].id)
                        || (event.payload matches EventPayload::ComponentProgress { id, .. } && id@ == s[i].id))
                        ==> #[trigger] t[i].status == s[i].status
            }),
            (event.payload is ComponentStarted || event.payload is ComponentProgress
                || event.payload is ComponentCompleted || event.payload is ComponentFailed
                || event.payload is ComponentDeferred) ==> next_status(
                self.summary(),
                event.payload,
                event.timestamp_ms,
            ) == self.summary(),
    {
        lemma_process_event_law(&self.state, self.status, event, now_ms);
    }

    /// The component states.
    pub closed spec fn components(&self) -> Seq<ComponentView<R>> {
        self.state@
    }

    /// The run summary.
    pub closed spec fn summary(&self) -> BootstrapStatus {
        self.status
    }

    /// The cached detailed reports.
    pub closed spec fn reports(&self) -> Seq<SlotView<S>> {
        self.detailed_cache@
    }

    /// The assembly the adapter was created with.
    pub closed spec fn steps(&self) -> Seq<Step> {
        self.assembly@
    }

    /// The timing history last loaded.
    pub closed spec fn history(&self) -> Option<H> {
        self.timing_history
    }

    /// The access URLs last discovered.
    pub closed spec fn urls(&self) -> Seq<AccessUrlInfo> {
        self.access_urls@
    }

    /// An adapter for `assembly`: every step starts pending, nothing else
    /// is known yet.
    pub fn new(assembly: Vec<Step>) -> (a: Self)
        ensures
            a.wf(),
            a.steps() == assembly@,
            a.components() == crate::projection::seeded_states::<R>(step_ids(assembly@)),
            forall|k: int|
                0 <= k < assembly@.len() ==> #[trigger] crate::projection::id_position(
                    a.components(),
                    assembly@[k].id@,
                ).is_some(),
            forall|k: int|
                0 <= k < a.components().len() ==> #[trigger] a.components()[k].status
                    == crate::projection::ComponentStatus::Pending,
            a.summary() == crate::projection::empty_status(),
            a.reports().len() == 0,
            a.history().is_none(),
            a.urls().len() == 0,
    {
        let mut ids: Vec<String> = Vec::new();
        let mut i: usize = 0;
        while i < assembly.len()
            invariant
                0 <= i <= assembly.len(),
                ids@.len() == i,
                forall|k: int| 0 <= k < i ==> #[trigger] ids@[k]@ == assembly@[k].id@,
            decreases assembly.len() - i,
        {
            ids.push(assembly[i].id.clone());
            i = i + 1;
        }
        let state = ComponentStates::seeded(&ids);
        proof {
            assert(crate::text::views(ids@) =~= step_ids(assembly@));
            assert forall|k: int| 0 <= k < assembly@.len() implies #[trigger] crate::projection::id_position(
                state@,
                assembly@[k].id@,
            ).is_some() by {
                assert(ids@[k]@ == assembly@[k].id@);
            }
        }
        BootstrapAdapter {
            state,
            status: BootstrapStatus::default(),
            detailed_cache: DetailedStatusCache::new(DETAILED_STATUS_TTL_MS),
            timing_history: None,
            access_urls: Vec::new(),
            assembly,
            epoch: clock_now(),
        }
    }

    /// Folds `event`, handled at `now_ms` on the adapter's clock, into the
    /// state.
    pub fn handle_event_at(&mut self, event: BootstrapEvent<R>, now_ms: u64)
        requires
            old(self).wf(),
        ensures
            final(self).wf(),
            final(self).components() == next_components(old(self).components(), event.payload, now_ms),
            final(self).summary() == next_status(old(self).summary(), event.payload, event.timestamp_ms),
            final(self).reports() == without_all(old(self).reports(), stale_reports(event.payload)),
            final(self).steps() == old(self).steps(),
            final(self).history() == old(self).history(),
            final(self).urls() == old(self).urls(),
    {
        process_event(event, &mut self.state, &mut self.status, &mut self.detailed_cache, now_ms);
    }

    /// Folds `event` into the state now.
    pub fn handle_event(&mut self, event: BootstrapEvent<R>)
        requires
            old(self).wf(),
        ensures
            final(self).wf(),
            exists|now: u64|
                #[trigger] next_components(old(self).components(), event.payload, now)
                    == final(self).components(),
            final(self).summary() == next_status(old(self).summary(), event.payload, event.timestamp_ms),
            final(self).reports() == without_all(old(self).reports(), stale_reports(event.payload)),
            final(self).steps() == old(self).steps(),
            final(self).history() == old(self).history(),
            final(self).urls() == old(self).urls(),
    {
        let now = millis_since(&self.epoch);
        self.handle_event_at(event, now);
    }

    /// The component states.
    pub fn component_states(&self) -> (s: &ComponentStates<R>)
        ensures
            s@ == self.components(),
    {
        &self.state
    }

    /// The run summary.
    pub fn bootstrap_status(&self) -> (s: BootstrapStatus)
        ensures
            s == self.summary(),
    {
        self.status
    }

    /// The assembly, whose steps form the dependency graph.
    pub fn dependency_graph(&self) -> (g: &Vec<Step>)
        ensures
            g@ == self.steps(),
    {
        &self.assembly
    }

    /// The timing history last loaded.
    pub fn timing_history(&self) -> (h: Option<&H>)
        ensures
            match h {
                Some(x) => self.history() == Some(*x),
                None => self.history().is_none(),
            },
    {
        self.timing_history.as_ref()
    }

    /// Records a freshly loaded timing history.
    pub fn set_timing_history(&mut self, history: H)
        requires
            old(self).wf(),
        ensures
            final(self).wf(),
            final(self).history() == Some(history),
            final(self).components() == old(self).components(),
            final(self).summary() == old(self).summary(),
            final(self).reports() == old(self).reports(),
            final(self).steps() == old(self).steps(),
            final(self).urls() == old(self).urls(),
    {
        self.timing_history = Some(history);
    }

    /// The access URLs last discovered.
    pub fn access_urls(&self) -> (u: &Vec<AccessUrlInfo>)
        ensures
            u@ == self.urls(),
    {
        &self.access_urls
    }

    /// Records freshly discovered access URLs.
    pub fn set_access_urls(&mut self, urls: Vec<AccessUrlInfo>)
        requires
            old(self).wf(),
        ensures
            final(self).wf(),
            final(self).urls() == urls@,
            final(self).components() == old(self).components(),
            final(self).summary() == old(self).summary(),
            final(self).reports() == old(self).reports(),
            final(self).steps() == old(self).steps(),
            final(self).history() == old(self).history(),
    {
        self.access_urls = urls;
    }

    /// The step of component `component_id`, which a detailed status is
    /// fetched for; an error when the assembly has no such component.
    pub fn step_for(&self, component_id: &str) -> (r: Result<&Step, String>)
        ensures
            match step_position(self.steps(), component_id@) {
                Some(i) => r matches Ok(s) && *s == self.steps()[i],
                None => r matches Err(e) && e@ == "Component not found in assembly"@,
            },
    {
        proof {
            lemma_step_position(self.assembly@, component_id@);
        }
        let mut i: usize = 0;
        while i < self.assembly.len()
            invariant
                0 <= i <= self.assembly.len(),
                forall|k: int| 0 <= k < i ==> self.assembly@[k].id@ != component_id@,
            decreases self.assembly.len() - i,
        {
            if self.assembly[i].id.as_str().to_owned() == component_id.to_owned() {
                proof {
                    lemma_step_position(self.assembly@, component_id@);
                    match step_position(self.assembly@, component_id@) {
                        Some(p) => {
                            if p > i {
                                assert(self.assembly@[i as int].id@ != component_id@);
                            } else if p < i {
                                assert(self.assembly@[p].id@ != component_id@);
                            }
                        },
                        None => {
                            assert(self.assembly@[i as int].id@ != component_id@);
                        },
                    }
                }
                return Ok(&self.assembly[i]);
            }
            i = i + 1;
        }
        proof {
            if let Some(p) = step_position(self.assembly@, component_id@) {
                assert(self.assembly@[p].id@ != component_id@);
            }
        }
        Err("Component not found in assembly".to_owned())
    }

    /// The cached detailed report of `component_id` at `now_ms`, while fresh.
    pub fn cached_detailed_status_at(&self, component_id: &str, now_ms: u64) -> (r: Option<S>) where S: Clone
        requires
            self.wf(),
        ensures
            lookup_answer(self.reports(), component_id@, now_ms, DETAILED_STATUS_TTL_MS, r),
    {
        self.detailed_cache.get_at(component_id, now_ms)
    }

    /// Caches a freshly fetched detailed report of `component_id` at `now_ms`.
    pub fn store_detailed_status_at(&mut self, component_id: String, status: S, now_ms: u64)
        requires
            old(self).wf(),
        ensures
            final(self).wf(),
            final(self).reports() == with_slot(old(self).reports(), component_id@, status, now_ms),
            final(self).components() == old(self).components(),
            final(self).summary() == old(self).summary(),
            final(self).steps() == old(self).steps(),
            final(self).history() == old(self).history(),
            final(self).urls() == old(self).urls(),
    {
        self.detailed_cache.insert_at(component_id, status, now_ms);
    }

    /// The cached detailed report of `component_id`, while fresh now.
    pub fn cached_detailed_status(&self, component_id: &str) -> (r: Option<S>) where S: Clone
        requires
            self.wf(),
        ensures
            exists|now: u64| #[trigger] lookup_answer(self.reports(), component_id@, now, DETAILED_STATUS_TTL_MS, r),
    {
        let now = millis_since(&self.epoch);
        let r = self.detailed_cache.get_at(component_id, now);
        proof {
            assert(lookup_answer(self.reports(), component_id@, now, DETAILED_STATUS_TTL_MS, r));
        }
        r
    }

    /// Caches a freshly fetched detailed report of `component_id` now.
    pub fn store_detailed_status(&mut self, component_id: String, status: S)
        requires
            old(self).wf(),
        ensures
            final(self).wf(),
            exists|now: u64| #[trigger] with_slot(old(self).reports(), component_id@, status, now)
                == final(self).reports(),
            final(self).components() == old(self).components(),
            final(self).summary() == old(self).summary(),
    {
        let now = millis_since(&self.epoch);
        self.store_detailed_status_at(component_id, status, now);
    }
}

} // verus!
