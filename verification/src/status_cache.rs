//! Short-lived cache of detailed component status reports.

use crate::cache::{clock_now, millis_since};
use std::time::Instant;
use vstd::prelude::*;

verus! {

/// The abstract content of one cached report.
pub struct SlotView<S> {
    pub id: Seq<char>,
    pub status: S,
    pub stored_at: u64,
}

struct StatusSlot<S> {
    id: String,
    status: S,
    stored_at: u64,
}

impl<S> StatusSlot<S> {
    spec fn view(&self) -> SlotView<S> {
        SlotView { id: self.id@, status: self.status, stored_at: self.stored_at }
    }
}

/// Position of the report stored for `id`, if any.
pub open spec fn slot_position<S>(s: Seq<SlotView<S>>, id: Seq<char>) -> Option<int>
    decreases s.len(),
{
    if s.len() == 0 {
        None
    } else if s[0].id == id {
        Some(0)
    } else {
        match slot_position(s.drop_first(), id) {
            Some(i) => Some(i + 1),
            None => None,
        }
    }
}

/// No two reports are stored for the same component.
pub open spec fn ids_unique<S>(s: Seq<SlotView<S>>) -> bool {
    forall|i: int, j: int| 0 <= i < s.len() && 0 <= j < s.len() && i != j ==> s[i].id != s[j].id
}

/// The reports after dropping the one stored for `id`.
pub open spec fn without_slot<S>(s: Seq<SlotView<S>>, id: Seq<char>) -> Seq<SlotView<S>> {
    match slot_position(s, id) {
        Some(i) => s.remove(i),
        None => s,
    }
}

/// The reports after storing `status` for `id` at `now`.
pub open spec fn with_slot<S>(s: Seq<SlotView<S>>, id: Seq<char>, status: S, now: u64) -> Seq<
    SlotView<S>,
> {
    let e = SlotView { id, status, stored_at: now };
    match slot_position(s, id) {
        Some(i) => s.update(i, e),
        None => s.push(e),
    }
}

/// A report is fresh while less than `ttl` milliseconds have passed since it was stored.
pub open spec fn is_fresh(stored_at: u64, now: u64, ttl: u64) -> bool {
    (if now >= stored_at { now - stored_at } else { 0 }) < ttl
}

/// `r` is what a lookup of `id` at `now` answers: a copy of the stored
/// report while it is fresh, and nothing otherwise.
pub open spec fn lookup_answer<S: Clone>(s: Seq<SlotView<S>>, id: Seq<char>, now: u64, ttl: u64, r: Option<S>) -> bool {
    match slot_position(s, id) {
        Some(i) => if is_fresh(s[i].stored_at, now, ttl) {
            r matches Some(x) && cloned(s[i].status, x)
        } else {
            r.is_none()
        },
        None => r.is_none(),
    }
}

proof fn lemma_slot_position_spec<S>(s: Seq<SlotView<S>>, id: Seq<char>)
    ensures
        match slot_position(s, id) {
            Some(i) => 0 <= i < s.len() && s[i].id == id && forall|k: int| 0 <= k < i ==> s[k].id != id,
            None => forall|k: int| 0 <= k < s.len() ==> s[k].id != id,
        },
    decreases s.len(),
{
    if s.len() > 0 {
        lemma_slot_position_spec(s.drop_first(), id);
        if s[0].id != id {
            match slot_position(s.drop_first(), id) {
                Some(i) => {
                    assert forall|k: int| 0 <= k < i + 1 implies s[k].id != id by {
                        if k > 0 {
                            assert(s[k] == s.drop_first()[k - 1]);
                        }
                    }
                },
                None => {
                    assert forall|k: int| 0 <= k < s.len() implies s[k].id != id by {
                        if k > 0 {
                            assert(s[k] == s.drop_first()[k - 1]);
                        }
                    }
                },
            }
        }
    }
}

proof fn lemma_slot_position_of<S>(s: Seq<SlotView<S>>, id: Seq<char>, i: int)
    requires
        0 <= i < s.len(),
        s[i].id == id,
        forall|k: int| 0 <= k < i ==> s[k].id != id,
    ensures
        slot_position(s, id) == Some(i),
{
    lemma_slot_position_spec(s, id);
}

/// Cache of detailed status reports, keyed by component id, each valid for
/// a fixed time after it was stored.
pub struct DetailedStatusCache<S> {
    data: Vec<StatusSlot<S>>,
    ttl_ms: u64,
    epoch: Instant,
}

impl<S> View for DetailedStatusCache<S> {
    type V = Seq<SlotView<S>>;

    closed spec fn view(&self) -> Seq<SlotView<S>> {
        self.data@.map_values(|e: StatusSlot<S>| e.view())
    }
}

impl<S> DetailedStatusCache<S> {
    pub closed spec fn wf(&self) -> bool {
        ids_unique(self@)
    }

    /// A well-formed cache holds at most one report per component.
    pub proof fn lemma_wf_ids_unique(&self)
        requires
            self.wf(),
        ensures
            ids_unique(self@),
    {
    }

    /// How long a report stays valid, in milliseconds.
    pub closed spec fn ttl(&self) -> u64 {
        self.ttl_ms
    }

    pub fn new(ttl_ms: u64) -> (c: Self)
        ensures
            c.wf(),
            c@ == Seq::<SlotView<S>>::empty(),
            c.ttl() == ttl_ms,
    {
        let c = DetailedStatusCache { data: Vec::new(), ttl_ms, epoch: clock_now() };
        proof {
            assert(c@ =~= Seq::<SlotView<S>>::empty());
        }
        c
    }

    fn position(&self, id: &String) -> (r: Option<usize>)
        ensures
            match r {
                Some(i) => slot_position(self@, id@) == Some(i as int) && i < self@.len(),
                None => slot_position(self@, id@).is_none(),
            },
    {
        let mut i: usize = 0;
        while i < self.data.len()
            invariant
                0 <= i <= self.data.len(),
                forall|k: int| 0 <= k < i ==> self@[k].id != id@,
            decreases self.data.len() - i,
        {
            if self.data[i].id == *id {
                proof { lemma_slot_position_of(self@, id@, i as int); }
                return Some(i);
            }
            i = i + 1;
        }
        proof { lemma_slot_position_spec(self@, id@); }
        None
    }

    /// The report stored for `component_id`, if it is still fresh at `now`.
    pub fn get_at(&self, component_id: &str, now: u64) -> (r: Option<S>) where S: Clone
        ensures
            lookup_answer(self@, component_id@, now, self.ttl(), r),
    {
        let key = component_id.to_owned();
        match self.position(&key) {
            Some(i) => {
                let stored_at = self.data[i].stored_at;
                let elapsed = now.saturating_sub(stored_at);
                if elapsed < self.ttl_ms {
                    Some(self.data[i].status.clone())
                } else {
                    None
                }
            },
            None => None,
        }
    }

    /// Stores `status` for `component_id` at `now`, replacing any earlier report.
    pub fn insert_at(&mut self, component_id: String, status: S, now: u64)
        requires
            old(self).wf(),
        ensures
            final(self).wf(),
            final(self)@ == with_slot(old(self)@, component_id@, status, now),
            final(self).ttl() == old(self).ttl(),
    {
        let ghost s = self@;
        let ghost e = SlotView { id: component_id@, status, stored_at: now };
        proof { lemma_slot_position_spec(s, component_id@); }
        match self.position(&component_id) {
            Some(i) => {
                self.data.set(i, StatusSlot { id: component_id, status, stored_at: now });
                proof {
                    assert(self@ =~= s.update(i as int, e));
                }
            },
            None => {
                self.data.push(StatusSlot { id: component_id, status, stored_at: now });
                proof {
                    assert(self@ =~= s.push(e));
                }
            },
        }
    }

    /// Drops the report stored for `component_id`, if any.
    pub fn invalidate(&mut self, component_id: &str)
        requires
            old(self).wf(),
        ensures
            final(self).wf(),
            final(self)@ == without_slot(old(self)@, component_id@),
            final(self).ttl() == old(self).ttl(),
    {
        let key = component_id.to_owned();
        let ghost s = self@;
        match self.position(&key) {
            Some(i) => {
                self.data.remove(i);
                proof {
                    assert(self@ =~= s.remove(i as int));
                    assert forall|a: int| 0 <= a < self@.len() implies #[trigger] self@[a] == s[if a < i { a } else { a + 1 }] by {}
                }
            },
            None => {},
        }
    }

    /// The report stored for `component_id`, if it is still fresh now.
    pub fn get(&self, component_id: &str) -> (r: Option<S>) where S: Clone
        ensures
            exists|now: u64| #[trigger] lookup_answer(self@, component_id@, now, self.ttl(), r),
    {
        let now = millis_since(&self.epoch);
        self.get_at(component_id, now)
    }

    /// Stores `status` for `component_id` now, replacing any earlier report.
    pub fn insert(&mut self, component_id: String, status: S)
        requires
            old(self).wf(),
        ensures
            final(self).wf(),
            exists|now: u64| final(self)@ == with_slot(old(self)@, component_id@, status, now),
            final(self).ttl() == old(self).ttl(),
    {
        let now = millis_since(&self.epoch);
        self.insert_at(component_id, status, now);
    }
}

/// A report read back before its time to live has passed is the one stored.
pub proof fn lemma_fresh_report_read_back<S>(
    s: Seq<SlotView<S>>,
    id: Seq<char>,
    status: S,
    stored: u64,
    later: u64,
    ttl: u64,
)
    requires
        ids_unique(s),
        is_fresh(stored, later, ttl),
    ensures
        ({
            let t = with_slot(s, id, status, stored);
            &&& slot_position(t, id) matches Some(i)
            &&& t[i].status == status
            &&& is_fresh(t[i].stored_at, later, ttl)
        }),
{
    lemma_slot_position_spec(s, id);
    let e = SlotView { id, status, stored_at: stored };
    let t = with_slot(s, id, status, stored);
    match slot_position(s, id) {
        Some(i) => {
            lemma_slot_position_of(t, id, i);
        },
        None => {
            lemma_slot_position_of(t, id, s.len() as int);
        },
    }
}

/// After invalidation no report is stored for the component.
pub proof fn lemma_invalidated_report_absent<S>(s: Seq<SlotView<S>>, id: Seq<char>)
    requires
        ids_unique(s),
    ensures
        slot_position(without_slot(s, id), id).is_none(),
{
    lemma_slot_position_spec(s, id);
    let t = without_slot(s, id);
    if let Some(i) = slot_position(s, id) {
        assert forall|k: int| 0 <= k < t.len() implies t[k].id != id by {
            assert(t[k] == s[if k < i { k } else { k + 1 }]);
        }
    }
    lemma_slot_position_spec(t, id);
}

} // verus!
