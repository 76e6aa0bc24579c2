//! A size-bounded cache whose entries expire a fixed time after insertion
//! and which evicts the least recently used entry when it is full.

use std::time::{Duration, Instant};
use vstd::prelude::*;

verus! {

/// A reading of the monotonic clock (`std::time::Instant`), carried through
/// opaquely.
#[verifier::external_type_specification]
#[verifier::external_body]
pub struct ExInstant(Instant);

/// Reads the monotonic clock (`std::time::Instant::now`). Nothing is stated
/// of the value: it depends on the time of the call.
#[verifier::external_body]
pub(crate) fn clock_now() -> Instant {
    Instant::now()
}

/// The time elapsed since `start` (`std::time::Instant::elapsed`). Nothing
/// is stated of the value: it depends on the time of the call.
#[verifier::external_body]
fn elapsed_since(start: &Instant) -> Duration {
    start.elapsed()
}

/// The whole milliseconds of `d` (`std::time::Duration::as_millis`).
/// Nothing is stated of the value: a `Duration` is opaque here, so there is
/// nothing to relate it to.
#[verifier::external_body]
fn whole_millis(d: &Duration) -> u128 {
    d.as_millis()
}

/// `ms` as a `u64`, saturating at `u64::MAX`.
fn saturate_millis(ms: u128) -> (r: u64)
    ensures
        r == (if ms > u64::MAX { u64::MAX as int } else { ms as int }),
{
    if ms > u64::MAX as u128 {
        u64::MAX
    } else {
        ms as u64
    }
}

/// Whole milliseconds elapsed since `start`, saturating at `u64::MAX`.
/// Nothing is stated of the value: it is a clock reading.
pub(crate) fn millis_since(start: &Instant) -> u64 {
    saturate_millis(whole_millis(&elapsed_since(start)))
}

/// The abstract content of one cache slot.
pub struct EntryView<V> {
    pub key: Seq<char>,
    pub value: V,
    pub expires_at: u64,
}

struct CacheEntry<V> {
    key: String,
    value: V,
    expires_at: u64,
}

impl<V> CacheEntry<V> {
    spec fn view(&self) -> EntryView<V> {
        EntryView { key: self.key@, value: self.value, expires_at: self.expires_at }
    }
}

/// No two slots hold the same key.
pub open spec fn keys_unique<V>(s: Seq<EntryView<V>>) -> bool {
    forall|i: int, j: int| 0 <= i < s.len() && 0 <= j < s.len() && i != j ==> s[i].key != s[j].key
}

/// An entry is still live at `now` while its deadline lies strictly after `now`.
pub open spec fn is_live<V>(now: u64) -> spec_fn(EntryView<V>) -> bool {
    |e: EntryView<V>| e.expires_at > now
}

/// The slots that survive expiry at `now`, in their recency order.
pub open spec fn live_entries<V>(s: Seq<EntryView<V>>, now: u64) -> Seq<EntryView<V>> {
    s.filter(is_live(now))
}

/// Position of the slot holding `key`, if any.
pub open spec fn key_position<V>(s: Seq<EntryView<V>>, key: Seq<char>) -> Option<int>
    decreases s.len(),
{
    if s.len() == 0 {
        None
    } else if s[0].key == key {
        Some(0)
    } else {
        match key_position(s.drop_first(), key) {
            Some(i) => Some(i + 1),
            None => None,
        }
    }
}

/// Moves slot `i` to the most recently used end.
pub open spec fn promote_at<V>(s: Seq<EntryView<V>>, i: int) -> Seq<EntryView<V>> {
    s.remove(i).push(s[i])
}

/// Drops least recently used slots until at most `max` remain.
pub open spec fn trim_to<V>(s: Seq<EntryView<V>>, max: nat) -> Seq<EntryView<V>> {
    if s.len() > max {
        s.skip(s.len() - max)
    } else {
        s
    }
}

/// The deadline of an entry stored at `now` with lifetime `ttl`
/// (clamped at the largest representable instant).
pub open spec fn deadline(now: u64, ttl: u64) -> u64 {
    if now + ttl > u64::MAX {
        u64::MAX
    } else {
        (now + ttl) as u64
    }
}

/// The slots after a lookup of `key` at `now`.
pub open spec fn after_get<V>(s: Seq<EntryView<V>>, key: Seq<char>, now: u64) -> Seq<EntryView<V>> {
    let l = live_entries(s, now);
    match key_position(l, key) {
        Some(i) => promote_at(l, i),
        None => l,
    }
}

/// The value a lookup of `key` at `now` returns.
pub open spec fn get_result<V>(s: Seq<EntryView<V>>, key: Seq<char>, now: u64) -> Option<V> {
    let l = live_entries(s, now);
    match key_position(l, key) {
        Some(i) => Some(l[i].value),
        None => None,
    }
}

/// The live slots, in recency order, with `value` stored under `key` at
/// `now` as the most recently used one (replacing an earlier slot of the
/// key), before the capacity is enforced.
pub open spec fn placed_entries<V>(s: Seq<EntryView<V>>, key: Seq<char>, value: V, now: u64, ttl: u64) -> Seq<EntryView<V>> {
    let l = live_entries(s, now);
    let e = EntryView { key, value, expires_at: deadline(now, ttl) };
    match key_position(l, key) {
        Some(i) => l.remove(i).push(e),
        None => l.push(e),
    }
}

/// The slots after storing `value` under `key` at `now`.
pub open spec fn after_insert<V>(
    s: Seq<EntryView<V>>,
    key: Seq<char>,
    value: V,
    now: u64,
    ttl: u64,
    max: nat,
) -> Seq<EntryView<V>> {
    trim_to(placed_entries(s, key, value, now, ttl), max)
}

/// Cache of values keyed by string, with a time to live and a capacity.
/// Entries are kept from least to most recently used.
pub struct TimedLruCache<V> {
    entries: Vec<CacheEntry<V>>,
    ttl_ms: u64,
    max_entries: usize,
    epoch: Instant,
}

impl<V> View for TimedLruCache<V> {
    type V = Seq<EntryView<V>>;

    closed spec fn view(&self) -> Seq<EntryView<V>> {
        self.entries@.map_values(|e: CacheEntry<V>| e.view())
    }
}

proof fn lemma_key_position_some<V>(s: Seq<EntryView<V>>, key: Seq<char>, i: int)
    requires
        0 <= i < s.len(),
        s[i].key == key,
        forall|k: int| 0 <= k < i ==> s[k].key != key,
    ensures
        key_position(s, key) == Some(i),
    decreases s.len(),
{
    if i > 0 {
        lemma_key_position_some(s.drop_first(), key, i - 1);
    }
}

proof fn lemma_key_position_none<V>(s: Seq<EntryView<V>>, key: Seq<char>)
    requires
        forall|k: int| 0 <= k < s.len() ==> s[k].key != key,
    ensures
        key_position(s, key).is_none(),
    decreases s.len(),
{
    if s.len() > 0 {
        lemma_key_position_none(s.drop_first(), key);
    }
}

/// `key_position` finds exactly the slots that hold the key.
pub proof fn lemma_key_position_spec<V>(s: Seq<EntryView<V>>, key: Seq<char>)
    ensures
        match key_position(s, key) {
            Some(i) => 0 <= i < s.len() && s[i].key == key,
            None => forall|k: int| 0 <= k < s.len() ==> s[k].key != key,
        },
    decreases s.len(),
{
    if s.len() > 0 {
        lemma_key_position_spec(s.drop_first(), key);
        if s[0].key != key {
            match key_position(s.drop_first(), key) {
                Some(i) => {},
                None => {
                    assert forall|k: int| 0 <= k < s.len() implies s[k].key != key by {
                        if k > 0 {
                            assert(s[k] == s.drop_first()[k - 1]);
                        }
                    }
                },
            }
        }
    }
}

proof fn lemma_live_unique<V>(s: Seq<EntryView<V>>, now: u64)
    requires
        keys_unique(s),
    ensures
        keys_unique(live_entries(s, now)),
        forall|i: int| 0 <= i < live_entries(s, now).len() ==> s.contains(#[trigger] live_entries(s, now)[i]),
    decreases s.len(),
{
    broadcast use vstd::seq_lib::group_filter_ensures;
    let p = is_live::<V>(now);
    reveal(Seq::filter);
    if s.len() > 0 {
        let d = s.drop_last();
        assert(keys_unique(d));
        lemma_live_unique(d, now);
        let fd = live_entries(d, now);
        assert forall|i: int| 0 <= i < fd.len() implies s.contains(#[trigger] fd[i]) by {
            let k = choose|k: int| 0 <= k < d.len() && d[k] == fd[i];
            assert(s[k] == fd[i]);
        }
        if p(s.last()) {
            let f = live_entries(s, now);
            assert(f == fd.push(s.last()));
            assert forall|i: int, j: int| 0 <= i < f.len() && 0 <= j < f.len() && i != j implies f[i].key != f[j].key by {
                if i < fd.len() && j < fd.len() {
                } else if i < fd.len() {
                    let k = choose|k: int| 0 <= k < d.len() && d[k] == fd[i];
                    assert(s[k] == fd[i]);
                    assert(k != s.len() - 1);
                } else {
                    let k = choose|k: int| 0 <= k < d.len() && d[k] == fd[j];
                    assert(s[k] == fd[j]);
                    assert(k != s.len() - 1);
                }
            }
            assert forall|i: int| 0 <= i < f.len() implies s.contains(#[trigger] f[i]) by {
                if i < fd.len() {
                    assert(fd[i] == f[i]);
                } else {
                    assert(f[i] == s[s.len() - 1]);
                }
            }
        } else {
            assert(live_entries(s, now) == fd);
        }
    }
}

impl<V> TimedLruCache<V> {
    /// Well-formedness: keys are unique.
    pub closed spec fn wf(&self) -> bool {
        keys_unique(self@)
    }

    /// A well-formed cache holds each key at most once.
    pub proof fn lemma_wf_keys_unique(&self)
        requires
            self.wf(),
        ensures
            keys_unique(self@),
    {
    }

    /// The lifetime given to new entries, in milliseconds.
    pub closed spec fn ttl(&self) -> u64 {
        self.ttl_ms
    }

    /// The largest number of entries kept.
    pub closed spec fn capacity(&self) -> nat {
        self.max_entries as nat
    }

    pub fn new(ttl_ms: u64, max_entries: usize) -> (c: Self)
        ensures
            c.wf(),
            c@ == Seq::<EntryView<V>>::empty(),
            c.ttl() == ttl_ms,
            c.capacity() == max_entries,
    {
        let c = TimedLruCache { entries: Vec::new(), ttl_ms, max_entries, epoch: clock_now() };
        proof {
            assert(c@ =~= Seq::<EntryView<V>>::empty());
        }
        c
    }

    fn position(&self, key: &String) -> (r: Option<usize>)
        ensures
            match r {
                Some(i) => key_position(self@, key@) == Some(i as int),
                None => key_position(self@, key@).is_none(),
            },
            r matches Some(i) ==> i < self@.len() && self@[i as int].key == key@,
    {
        let mut i: usize = 0;
        while i < self.entries.len()
            invariant
                0 <= i <= self.entries.len(),
                forall|k: int| 0 <= k < i ==> self@[k].key != key@,
            decreases self.entries.len() - i,
        {
            if self.entries[i].key == *key {
                proof { lemma_key_position_some(self@, key@, i as int); }
                return Some(i);
            }
            i = i + 1;
        }
        proof { lemma_key_position_none(self@, key@); }
        None
    }

    fn evict_expired(&mut self, now: u64)
        requires
            old(self).wf(),
        ensures
            final(self).wf(),
            final(self)@ == live_entries(old(self)@, now),
            final(self).ttl_ms == old(self).ttl_ms,
            final(self).max_entries == old(self).max_entries,
    {
        let ghost orig = self@;
        let ghost p = is_live::<V>(now);
        let mut i: usize = 0;
        let ghost mut j: int = 0;
        proof {
            lemma_live_unique(orig, now);
            assert(orig.take(0).filter(p) =~= Seq::<EntryView<V>>::empty()) by {
                reveal(Seq::filter);
            }
            assert(self@.skip(0) =~= orig.skip(0));
        }
        while i < self.entries.len()
            invariant
                0 <= i <= self.entries.len(),
                0 <= j <= orig.len(),
                self.ttl_ms == old(self).ttl_ms,
                self.max_entries == old(self).max_entries,
                self@.take(i as int) == orig.take(j).filter(p),
                self@.skip(i as int) == orig.skip(j),
                self.entries.len() - i == orig.len() - j,
                p == is_live::<V>(now),
            decreases self.entries.len() - i,
        {
            let ghost before = self@;
            proof {
                assert(orig.take(j + 1) =~= orig.take(j).push(orig[j]));
                orig.take(j).lemma_filter_push(orig[j], p);
                assert(before[i as int] == before.skip(i as int)[0]);
                assert(orig[j] == orig.skip(j)[0]);
            }
            if self.entries[i].expires_at <= now {
                self.entries.remove(i);
                proof {
                    assert(self@ =~= before.remove(i as int));
                    assert(self@.take(i as int) =~= before.take(i as int));
                    assert forall|k: int| 0 <= k < self@.skip(i as int).len() implies #[trigger] self@.skip(i as int)[k] == orig.skip(j + 1)[k] by {
                        assert(before.skip(i as int)[k + 1] == orig.skip(j)[k + 1]);
                    }
                    assert(self@.skip(i as int) =~= orig.skip(j + 1));
                }
            } else {
                proof {
                    assert(self@.take(i + 1) =~= before.take(i as int).push(before[i as int]));
                    assert forall|k: int| 0 <= k < self@.skip(i + 1).len() implies #[trigger] self@.skip(i + 1)[k] == orig.skip(j + 1)[k] by {
                        assert(before.skip(i as int)[k + 1] == orig.skip(j)[k + 1]);
                    }
                    assert(self@.skip(i + 1) =~= orig.skip(j + 1));
                }
                i = i + 1;
            }
            proof { j = j + 1; }
        }
        proof {
            assert(orig.take(j) =~= orig);
            assert(self@ =~= self@.take(i as int));
        }
    }
}


proof fn lemma_promote_unique<V>(s: Seq<EntryView<V>>, i: int)
    requires
        keys_unique(s),
        0 <= i < s.len(),
    ensures
        keys_unique(promote_at(s, i)),
        promote_at(s, i).len() == s.len(),
{
    let t = promote_at(s, i);
    let n = s.len();
    assert forall|a: int| 0 <= a < n - 1 implies #[trigger] t[a] == s[if a < i { a } else { a + 1 }] by {}
    assert(t[n - 1] == s[i]);
    assert forall|a: int, b: int| 0 <= a < t.len() && 0 <= b < t.len() && a != b implies t[a].key != t[b].key by {
        let ia = if a == n - 1 { i } else if a < i { a } else { a + 1 };
        let ib = if b == n - 1 { i } else if b < i { b } else { b + 1 };
        assert(t[a] == s[ia]);
        assert(t[b] == s[ib]);
    }
}

proof fn lemma_skip_unique<V>(s: Seq<EntryView<V>>, k: int)
    requires
        keys_unique(s),
        0 <= k <= s.len(),
    ensures
        keys_unique(s.skip(k)),
{
    assert forall|a: int, b: int| 0 <= a < s.skip(k).len() && 0 <= b < s.skip(k).len() && a != b implies s.skip(k)[a].key != s.skip(k)[b].key by {
        assert(s.skip(k)[a] == s[a + k]);
        assert(s.skip(k)[b] == s[b + k]);
    }
}

/// Placing a fresh entry for `key` keeps keys unique and puts it last.
proof fn lemma_place_unique<V>(l: Seq<EntryView<V>>, e: EntryView<V>)
    requires
        keys_unique(l),
    ensures
        ({
            let placed = match key_position(l, e.key) {
                Some(i) => l.remove(i).push(e),
                None => l.push(e),
            };
            &&& keys_unique(placed)
            &&& placed.len() >= 1
            &&& placed.last() == e
            &&& forall|a: int| 0 <= a < placed.len() - 1 ==> #[trigger] placed[a].key != e.key
        }),
{
    lemma_key_position_spec(l, e.key);
    match key_position(l, e.key) {
        Some(i) => {
            let r = l.remove(i);
            let placed = r.push(e);
            assert forall|a: int| 0 <= a < r.len() implies #[trigger] r[a] == l[if a < i { a } else { a + 1 }] by {}
            assert forall|a: int| 0 <= a < placed.len() - 1 implies #[trigger] placed[a].key != e.key by {
                assert(placed[a] == r[a]);
            }
            assert forall|a: int, b: int| 0 <= a < placed.len() && 0 <= b < placed.len() && a != b implies placed[a].key != placed[b].key by {
                if a < r.len() && b < r.len() {
                    assert(placed[a] == r[a] && placed[b] == r[b]);
                    assert(r[a] == l[if a < i { a } else { a + 1 }]);
                    assert(r[b] == l[if b < i { b } else { b + 1 }]);
                } else if a < r.len() {
                    assert(placed[a] == r[a]);
                } else {
                    assert(placed[b] == r[b]);
                }
            }
        },
        None => {
            let placed = l.push(e);
            assert forall|a: int| 0 <= a < placed.len() - 1 implies #[trigger] placed[a].key != e.key by {
                assert(placed[a] == l[a]);
            }
        },
    }
}

/// The slots after an insertion never outnumber the capacity, and keys stay unique.
pub proof fn lemma_insert_respects_capacity<V>(
    s: Seq<EntryView<V>>,
    key: Seq<char>,
    value: V,
    now: u64,
    ttl: u64,
    max: nat,
)
    requires
        keys_unique(s),
    ensures
        after_insert(s, key, value, now, ttl, max).len() <= max,
        keys_unique(after_insert(s, key, value, now, ttl, max)),
{
    let l = live_entries(s, now);
    lemma_live_unique(s, now);
    let e = EntryView { key, value, expires_at: deadline(now, ttl) };
    lemma_place_unique(l, e);
    let placed = match key_position(l, key) {
        Some(i) => l.remove(i).push(e),
        None => l.push(e),
    };
    if placed.len() > max {
        lemma_skip_unique(placed, placed.len() - max);
    }
}

/// A value stored at `now` is returned by a lookup of its key at any later
/// time before its deadline, provided the cache holds at least one entry.
pub proof fn lemma_get_after_insert<V>(
    s: Seq<EntryView<V>>,
    key: Seq<char>,
    value: V,
    now: u64,
    later: u64,
    ttl: u64,
    max: nat,
)
    requires
        keys_unique(s),
        max >= 1,
        later < deadline(now, ttl),
    ensures
        get_result(after_insert(s, key, value, now, ttl, max), key, later) == Some(value),
{
    broadcast use vstd::seq_lib::group_filter_ensures;
    let l = live_entries(s, now);
    lemma_live_unique(s, now);
    let e = EntryView { key, value, expires_at: deadline(now, ttl) };
    lemma_place_unique(l, e);
    let placed = match key_position(l, key) {
        Some(i) => l.remove(i).push(e),
        None => l.push(e),
    };
    let t = after_insert(s, key, value, now, ttl, max);
    lemma_insert_respects_capacity(s, key, value, now, ttl, max);
    assert(t.len() >= 1 && t.last() == e) by {
        if placed.len() > max {
            assert(t == placed.skip(placed.len() - max));
            assert(t[t.len() - 1] == placed[placed.len() - 1]);
        }
    }
    let lt = live_entries(t, later);
    lemma_live_unique(t, later);
    assert(is_live::<V>(later)(t[t.len() - 1]));
    assert(lt.contains(e));
    lemma_key_position_spec(lt, key);
    match key_position(lt, key) {
        Some(i) => {
            let k = choose|k: int| 0 <= k < lt.len() && lt[k] == e;
            assert(lt[k].key == key);
            assert(i == k);
        },
        None => {
            let k = choose|k: int| 0 <= k < lt.len() && lt[k] == e;
            assert(lt[k].key == key);
        },
    }
}

/// A lookup only ever returns the value of a slot that holds the key and
/// whose deadline lies after the time of the lookup.
pub proof fn lemma_get_returns_live_value<V>(s: Seq<EntryView<V>>, key: Seq<char>, now: u64)
    requires
        keys_unique(s),
    ensures
        get_result(s, key, now) matches Some(v) ==> exists|i: int|
            0 <= i < s.len() && #[trigger] s[i].key == key && s[i].value == v && s[i].expires_at > now,
{
    broadcast use vstd::seq_lib::group_filter_ensures;
    let l = live_entries(s, now);
    lemma_live_unique(s, now);
    lemma_key_position_spec(l, key);
    if let Some(i) = key_position(l, key) {
        assert(is_live::<V>(now)(l[i]));
        assert(s.contains(l[i]));
        let k = choose|k: int| 0 <= k < s.len() && s[k] == l[i];
        assert(s[k].key == key);
    }
}

impl<V> TimedLruCache<V> {
    fn promote(&mut self, i: usize)
        requires
            old(self).wf(),
            i < old(self)@.len(),
        ensures
            final(self).wf(),
            final(self)@ == promote_at(old(self)@, i as int),
            final(self).ttl_ms == old(self).ttl_ms,
            final(self).max_entries == old(self).max_entries,
    {
        let ghost s = self@;
        let e = self.entries.remove(i);
        self.entries.push(e);
        proof {
            assert(self@ =~= promote_at(s, i as int));
            lemma_promote_unique(s, i as int);
        }
    }

    fn evict_overflow(&mut self)
        requires
            old(self).wf(),
        ensures
            final(self).wf(),
            final(self)@ == trim_to(old(self)@, old(self).max_entries as nat),
            final(self).ttl_ms == old(self).ttl_ms,
            final(self).max_entries == old(self).max_entries,
    {
        let ghost orig = self@;
        proof { assert(orig.skip(0) =~= orig); }
        while self.entries.len() > self.max_entries
            invariant
                self.ttl_ms == old(self).ttl_ms,
                self.max_entries == old(self).max_entries,
                self.entries.len() <= orig.len(),
                self@ == orig.skip(orig.len() - self.entries.len()),
                orig.len() > self.max_entries ==> self.entries.len() >= self.max_entries,
                orig.len() <= self.max_entries ==> self.entries.len() == orig.len(),
                orig == old(self)@,
            decreases self.entries.len(),
        {
            let ghost before = self@;
            self.entries.remove(0);
            proof {
                let m = orig.len() - before.len();
                assert forall|k: int| 0 <= k < self@.len() implies #[trigger] self@[k] == orig.skip(m + 1)[k] by {
                    assert(self@[k] == before[k + 1]);
                    assert(before[k + 1] == orig.skip(m)[k + 1]);
                }
                assert(self@ =~= orig.skip(orig.len() - self.entries.len()));
            }
        }
        proof {
            if orig.len() > self.max_entries {
                lemma_skip_unique(orig, orig.len() - self.max_entries);
            } else {
                assert(self@ =~= orig);
            }
        }
    }

    /// Looks `key` up at time `now` (milliseconds on the cache's clock).
    pub fn get_at(&mut self, key: &String, now: u64) -> (r: Option<&V>)
        requires
            old(self).wf(),
        ensures
            final(self).wf(),
            final(self)@ == after_get(old(self)@, key@, now),
            match get_result(old(self)@, key@, now) {
                Some(v) => r matches Some(x) && *x == v,
                None => r.is_none(),
            },
            final(self).ttl() == old(self).ttl(),
            final(self).capacity() == old(self).capacity(),
    {
        self.evict_expired(now);
        let ghost l = self@;
        assert(l == live_entries(old(self)@, now));
        match self.position(key) {
            Some(i) => {
                self.promote(i);
                let n = self.entries.len();
                proof {
                    assert(self@ == promote_at(l, i as int));
                    assert(self@.len() == self.entries@.len());
                    assert(self@[n - 1] == l[i as int]);
                    assert(self@[n - 1].value == self.entries@[n - 1].value);
                    assert(key_position(l, key@) == Some(i as int));
                    assert(self@ == after_get(old(self)@, key@, now));
                }
                Some(&self.entries[n - 1].value)
            },
            None => {
                assert(self@ == after_get(old(self)@, key@, now));
                None
            },
        }
    }

    /// Stores `value` under `key` at time `now` (milliseconds on the cache's clock).
    pub fn insert_at(&mut self, key: String, value: V, now: u64)
        requires
            old(self).wf(),
        ensures
            final(self).wf(),
            final(self)@ == after_insert(old(self)@, key@, value, now, old(self).ttl(), old(self).capacity()),
            final(self).ttl() == old(self).ttl(),
            final(self).capacity() == old(self).capacity(),
    {
        self.evict_expired(now);
        let ghost l = self@;
        let expires_at = now.saturating_add(self.ttl_ms);
        let ghost e = EntryView { key: key@, value, expires_at };
        proof {
            assert(expires_at == deadline(now, self.ttl_ms));
            lemma_place_unique(l, e);
        }
        match self.position(&key) {
            Some(i) => {
                self.entries.remove(i);
                self.entries.push(CacheEntry { key, value, expires_at });
                proof { assert(self@ =~= l.remove(i as int).push(e)); }
            },
            None => {
                self.entries.push(CacheEntry { key, value, expires_at });
                proof { assert(self@ =~= l.push(e)); }
            },
        }
        let ghost placed = self@;
        self.evict_overflow();
        proof {
            assert(placed == match key_position(l, key@) {
                Some(i) => l.remove(i).push(e),
                None => l.push(e),
            });
        }
    }

    /// Looks `key` up now: entries past their deadline are dropped first, and a
    /// hit becomes the most recently used entry.
    pub fn get(&mut self, key: &String) -> (r: Option<&V>)
        requires
            old(self).wf(),
        ensures
            final(self).wf(),
            exists|now: u64| {
                &&& final(self)@ == after_get(old(self)@, key@, now)
                &&& match get_result(old(self)@, key@, now) {
                    Some(v) => r matches Some(x) && *x == v,
                    None => r.is_none(),
                }
            },
            final(self).ttl() == old(self).ttl(),
            final(self).capacity() == old(self).capacity(),
    {
        let now = millis_since(&self.epoch);
        self.get_at(key, now)
    }

    /// Stores `value` under `key` now; the entry expires `ttl` milliseconds
    /// later, and least recently used entries are evicted beyond the capacity.
    pub fn insert(&mut self, key: String, value: V)
        requires
            old(self).wf(),
        ensures
            final(self).wf(),
            exists|now: u64|
                final(self)@ == after_insert(old(self)@, key@, value, now, old(self).ttl(), old(self).capacity()),
            final(self).ttl() == old(self).ttl(),
            final(self).capacity() == old(self).capacity(),
    {
        let now = millis_since(&self.epoch);
        self.insert_at(key, value, now);
    }
}

/// Storing a key that is live at `now` replaces its slot: no second slot
/// of the key appears, and, within the capacity, the number of slots stays
/// that of the live slots.
pub proof fn lemma_reinsert_replaces<V>(
    s: Seq<EntryView<V>>,
    key: Seq<char>,
    value: V,
    now: u64,
    ttl: u64,
    max: nat,
)
    requires
        keys_unique(s),
        key_position(live_entries(s, now), key).is_some(),
        live_entries(s, now).len() <= max,
    ensures
        keys_unique(after_insert(s, key, value, now, ttl, max)),
        after_insert(s, key, value, now, ttl, max).len() == live_entries(s, now).len(),
{
    lemma_insert_respects_capacity(s, key, value, now, ttl, max);
    let l = live_entries(s, now);
    lemma_key_position_spec(l, key);
}

/// Capacity is enforced by dropping the least recently used slots: the
/// slots kept are the most recent ones, in order, and as many as the
/// capacity allows.
pub proof fn lemma_eviction_keeps_most_recent<V>(
    s: Seq<EntryView<V>>,
    key: Seq<char>,
    value: V,
    now: u64,
    ttl: u64,
    max: nat,
)
    ensures
        ({
            let p = placed_entries(s, key, value, now, ttl);
            let t = after_insert(s, key, value, now, ttl, max);
            &&& t.len() == (if p.len() > max { max as int } else { p.len() as int })
            &&& forall|i: int| 0 <= i < t.len() ==> #[trigger] t[i] == p[i + (p.len() - t.len())]
        }),
{
}

/// With no capacity, nothing stored can be read back.
pub proof fn lemma_zero_capacity_keeps_nothing<V>(
    s: Seq<EntryView<V>>,
    key: Seq<char>,
    value: V,
    now: u64,
    later: u64,
    ttl: u64,
)
    ensures
        after_insert(s, key, value, now, ttl, 0).len() == 0,
        get_result(after_insert(s, key, value, now, ttl, 0), key, later).is_none(),
{
    let t = after_insert(s, key, value, now, ttl, 0);
    assert(t =~= Seq::<EntryView<V>>::empty());
    assert(live_entries(t, later) =~= Seq::<EntryView<V>>::empty()) by {
        reveal(Seq::filter);
    }
}

/// A lookup answers from the slot of the key alone: its value while its
/// deadline lies after the time of the lookup, nothing once the deadline
/// has passed, and nothing for a key without a slot.
pub proof fn lemma_get_by_deadline<V>(s: Seq<EntryView<V>>, key: Seq<char>, now: u64)
    requires
        keys_unique(s),
    ensures
        get_result(s, key, now) == match key_position(s, key) {
            Some(i) => if s[i].expires_at > now {
                Some(s[i].value)
            } else {
                None
            },
            None => None,
        },
{
    broadcast use vstd::seq_lib::group_filter_ensures;
    let l = live_entries(s, now);
    lemma_live_unique(s, now);
    lemma_key_position_spec(s, key);
    lemma_key_position_spec(l, key);
    match key_position(l, key) {
        Some(j) => {
            assert(s.contains(l[j]));
            let k = choose|k: int| 0 <= k < s.len() && s[k] == l[j];
            assert(is_live::<V>(now)(l[j]));
            match key_position(s, key) {
                Some(i) => {
                    assert(s[k].key == key);
                    assert(k == i);
                },
                None => {
                    assert(s[k].key == key);
                },
            }
        },
        None => {
            if let Some(i) = key_position(s, key) {
                if s[i].expires_at > now {
                    assert(is_live::<V>(now)(s[i]));
                    assert(l.contains(s[i]));
                    let j = choose|j: int| 0 <= j < l.len() && l[j] == s[i];
                    assert(l[j].key == key);
                }
            }
        },
    }
}

/// A lookup never adds a slot, never changes a slot's value or deadline
/// (it only drops expired slots and moves the key's slot to the most
/// recent end), and keeps keys unique.
pub proof fn lemma_get_keeps_slots<V>(s: Seq<EntryView<V>>, key: Seq<char>, now: u64)
    requires
        keys_unique(s),
    ensures
        keys_unique(after_get(s, key, now)),
        after_get(s, key, now).len() <= s.len(),
        forall|i: int| 0 <= i < after_get(s, key, now).len() ==> s.contains(#[trigger] after_get(s, key, now)[i]),
{
    broadcast use vstd::seq_lib::group_filter_ensures;
    let l = live_entries(s, now);
    lemma_live_unique(s, now);
    lemma_key_position_spec(l, key);
    match key_position(l, key) {
        Some(i) => {
            lemma_promote_unique(l, i);
            let t = promote_at(l, i);
            assert forall|a: int| 0 <= a < t.len() implies s.contains(#[trigger] t[a]) by {
                if a < t.len() - 1 {
                    assert(t[a] == l[if a < i { a } else { a + 1 }]);
                } else {
                    assert(t[a] == l[i]);
                }
            }
        },
        None => {},
    }
}

} // verus!
