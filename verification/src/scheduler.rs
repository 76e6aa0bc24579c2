//! Decisions of the action scheduler: which scheduled actions to run on a
//! tick, how a run ends, how a schedule is cancelled and which requests are
//! accepted.

use crate::domain::{ScheduleStatus, ScheduledAction};
use vstd::prelude::*;

verus! {

/// The most actions one scheduler tick executes.
pub const MAX_ACTIONS_PER_TICK: usize = 64;

/// Why a scheduling request was refused.
#[derive(Debug, Clone, Copy, PartialEq, Eq, Structural)]
pub enum ScheduleError {
    MissingId,
}

impl ScheduleError {
    /// The text of the refusal.
    pub fn message(&self) -> (m: &'static str)
        ensures
            *self == ScheduleError::MissingId ==> m@ == "scheduled action id is required"@,
    {
        match self {
            ScheduleError::MissingId => "scheduled action id is required",
        }
    }
}

/// Accepts a request to schedule `action` unless its id is empty.
pub fn validate_schedule(action: &ScheduledAction) -> (r: Result<(), ScheduleError>)
    ensures
        r is Err <==> action.id@.len() == 0,
        r matches Err(e) ==> e == ScheduleError::MissingId,
{
    if action.id.as_str().is_empty() {
        Err(ScheduleError::MissingId)
    } else {
        Ok(())
    }
}

/// An action is due at `now` when its time has come and it is still pending.
pub open spec fn is_due(a: ScheduledAction, now: i64) -> bool {
    a.execute_at <= now && a.status is Pending
}

/// Positions below `n` of the actions due at `now`, in order.
pub open spec fn due_positions(actions: Seq<ScheduledAction>, now: i64, n: int) -> Seq<int>
    decreases n,
{
    if n <= 0 {
        Seq::empty()
    } else if is_due(actions[n - 1], now) {
        due_positions(actions, now, n - 1).push(n - 1)
    } else {
        due_positions(actions, now, n - 1)
    }
}

proof fn lemma_due_positions_bounded(actions: Seq<ScheduledAction>, now: i64, n: int)
    requires
        0 <= n,
    ensures
        due_positions(actions, now, n).len() <= n,
        forall|i: int|
            0 <= i < due_positions(actions, now, n).len() ==> 0 <= #[trigger] due_positions(
                actions,
                now,
                n,
            )[i] < n,
    decreases n,
{
    if n > 0 {
        lemma_due_positions_bounded(actions, now, n - 1);
    }
}

/// The positions of the actions one tick at `now` executes: the first
/// (at most) `MAX_ACTIONS_PER_TICK` due actions, in order.
pub open spec fn tick_selection(actions: Seq<ScheduledAction>, now: i64) -> Seq<int> {
    let due = due_positions(actions, now, actions.len() as int);
    if due.len() > MAX_ACTIONS_PER_TICK {
        due.take(MAX_ACTIONS_PER_TICK as int)
    } else {
        due
    }
}

/// The positions of the actions to execute on a tick at `now`.
pub fn due_actions(actions: &Vec<ScheduledAction>, now: i64) -> (r: Vec<usize>)
    ensures
        r@.len() == tick_selection(actions@, now).len(),
        forall|i: int| 0 <= i < r@.len() ==> r@[i] as int == #[trigger] tick_selection(actions@, now)[i],
{
    let mut picked: Vec<usize> = Vec::new();
    let mut k: usize = 0;
    while k < actions.len()
        invariant
            0 <= k <= actions.len(),
            picked@.len() <= MAX_ACTIONS_PER_TICK,
            picked@.len() < MAX_ACTIONS_PER_TICK ==> picked@.len() == due_positions(actions@, now, k as int).len(),
            picked@.len() == MAX_ACTIONS_PER_TICK ==> due_positions(actions@, now, k as int).len() >= MAX_ACTIONS_PER_TICK,
            forall|i: int|
                0 <= i < picked@.len() ==> picked@[i] as int == #[trigger] due_positions(
                    actions@,
                    now,
                    k as int,
                )[i],
        ensures
            k == actions.len() || picked@.len() == MAX_ACTIONS_PER_TICK,
            0 <= k <= actions.len(),
            picked@.len() <= MAX_ACTIONS_PER_TICK,
            picked@.len() < MAX_ACTIONS_PER_TICK ==> picked@.len() == due_positions(actions@, now, k as int).len(),
            picked@.len() == MAX_ACTIONS_PER_TICK ==> due_positions(actions@, now, k as int).len() >= MAX_ACTIONS_PER_TICK,
            forall|i: int|
                0 <= i < picked@.len() ==> picked@[i] as int == #[trigger] due_positions(
                    actions@,
                    now,
                    k as int,
                )[i],
        decreases actions.len() - k,
    {
        let due = actions[k].execute_at <= now && matches!(actions[k].status, ScheduleStatus::Pending);
        if due {
            if picked.len() >= MAX_ACTIONS_PER_TICK {
                break;
            }
            picked.push(k);
        }
        proof {
            lemma_due_positions_bounded(actions@, now, k as int);
        }
        k = k + 1;
    }
    proof {
        let n = actions@.len() as int;
        lemma_due_positions_bounded(actions@, now, n);
        lemma_due_prefix(actions@, now, k as int, n);
        let due_n = due_positions(actions@, now, n);
        if picked@.len() < MAX_ACTIONS_PER_TICK {
            assert(k == actions.len());
            assert(tick_selection(actions@, now) == due_n);
        } else {
            assert(tick_selection(actions@, now) == due_n.take(MAX_ACTIONS_PER_TICK as int));
            assert forall|i: int| 0 <= i < picked@.len() implies picked@[i] as int == #[trigger] tick_selection(actions@, now)[i] by {
                assert(picked@[i] as int == due_positions(actions@, now, k as int)[i]);
            }
        }
    }
    picked
}

proof fn lemma_due_prefix(actions: Seq<ScheduledAction>, now: i64, k: int, n: int)
    requires
        0 <= k <= n,
    ensures
        due_positions(actions, now, k).len() <= due_positions(actions, now, n).len(),
        forall|i: int|
            0 <= i < due_positions(actions, now, k).len() ==> #[trigger] due_positions(actions, now, k)[i]
                == due_positions(actions, now, n)[i],
    decreases n - k,
{
    if k < n {
        lemma_due_prefix(actions, now, k, n - 1);
    }
}

/// The status an executed action ends in: completed, or failed with the error text.
pub fn finished_status(result: Result<(), String>) -> (s: ScheduleStatus)
    ensures
        match result {
            Ok(()) => s is Completed,
            Err(e) => s matches ScheduleStatus::Failed { error } && error@ == e@,
        },
{
    match result {
        Ok(()) => ScheduleStatus::Completed,
        Err(error) => ScheduleStatus::Failed { error },
    }
}

/// An action that has run (completed or failed) or was cancelled is never
/// due again, whatever the time.
pub proof fn lemma_settled_action_never_due(a: ScheduledAction, now: i64)
    requires
        a.status is Completed || a.status is Failed || a.status is Cancelled,
    ensures
        !is_due(a, now),
{
}

/// Position of the first action with id `id`, if any.
pub open spec fn first_with_id(actions: Seq<ScheduledAction>, id: Seq<char>) -> Option<int>
    decreases actions.len(),
{
    if actions.len() == 0 {
        None
    } else if actions[0].id@ == id {
        Some(0)
    } else {
        match first_with_id(actions.drop_first(), id) {
            Some(i) => Some(i + 1),
            None => None,
        }
    }
}

proof fn lemma_first_with_id(actions: Seq<ScheduledAction>, id: Seq<char>, i: int)
    requires
        0 <= i < actions.len(),
        actions[i].id@ == id,
        forall|k: int| 0 <= k < i ==> actions[k].id@ != id,
    ensures
        first_with_id(actions, id) == Some(i),
    decreases i,
{
    if i > 0 {
        lemma_first_with_id(actions.drop_first(), id, i - 1);
    }
}

proof fn lemma_no_id(actions: Seq<ScheduledAction>, id: Seq<char>)
    requires
        forall|k: int| 0 <= k < actions.len() ==> actions[k].id@ != id,
    ensures
        first_with_id(actions, id).is_none(),
    decreases actions.len(),
{
    if actions.len() > 0 {
        lemma_no_id(actions.drop_first(), id);
    }
}

/// The update that cancels the schedule `id`: the first stored action with
/// that id, marked cancelled; nothing when no action has it.
pub fn cancellation(actions: Vec<ScheduledAction>, id: &String) -> (r: Option<ScheduledAction>)
    ensures
        match first_with_id(actions@, id@) {
            Some(i) => r == Some(ScheduledAction { status: ScheduleStatus::Cancelled, ..actions@[i] }),
            None => r.is_none(),
        },
{
    let mut k: usize = 0;
    let n = actions.len();
    while k < n
        invariant
            0 <= k <= n,
            n == actions@.len(),
            forall|j: int| 0 <= j < k ==> actions@[j].id@ != id@,
        decreases n - k,
    {
        if actions[k].id == *id {
            proof { lemma_first_with_id(actions@, id@, k as int); }
            let mut rest = actions;
            let mut a = rest.swap_remove(k);
            a.status = ScheduleStatus::Cancelled;
            return Some(a);
        }
        k = k + 1;
    }
    proof { lemma_no_id(actions@, id@); }
    None
}

/// The due positions below `n` are, in increasing order, exactly the
/// positions below `n` of the pending actions whose time has come.
proof fn lemma_due_positions_members(actions: Seq<ScheduledAction>, now: i64, n: int)
    requires
        0 <= n <= actions.len(),
    ensures
        forall|i: int|
            #![trigger due_positions(actions, now, n)[i]]
            0 <= i < due_positions(actions, now, n).len() ==> {
                let p = due_positions(actions, now, n)[i];
                &&& 0 <= p < n
                &&& actions[p].execute_at <= now
                &&& actions[p].status is Pending
            },
        forall|i: int, j: int|
            0 <= i < j < due_positions(actions, now, n).len() ==> #[trigger] due_positions(actions, now, n)[i]
                < #[trigger] due_positions(actions, now, n)[j],
        forall|k: int|
            0 <= k < n && actions[k].execute_at <= now && #[trigger] actions[k].status is Pending
                ==> due_positions(actions, now, n).contains(k),
    decreases n,
{
    if n > 0 {
        lemma_due_positions_members(actions, now, n - 1);
        let prev = due_positions(actions, now, n - 1);
        let cur = due_positions(actions, now, n);
        assert forall|k: int|
            0 <= k < n && actions[k].execute_at <= now && #[trigger] actions[k].status is Pending
                implies cur.contains(k) by {
            if k < n - 1 {
                let j = choose|j: int| 0 <= j < prev.len() && prev[j] == k;
                assert(cur[j] == prev[j]);
            } else {
                assert(cur[cur.len() - 1] == k);
            }
        }
    }
}

/// What one scheduler tick at `now` picks: at most `MAX_ACTIONS_PER_TICK`
/// positions, in increasing order, each holding an action that is pending
/// and whose time has come (an action executing, completed, failed or
/// cancelled is never picked). When fewer than `MAX_ACTIONS_PER_TICK` are
/// picked, every pending action whose time has come is picked.
pub proof fn lemma_tick_selection(actions: Seq<ScheduledAction>, now: i64)
    ensures
        tick_selection(actions, now).len() <= MAX_ACTIONS_PER_TICK,
        forall|i: int|
            #![trigger tick_selection(actions, now)[i]]
            0 <= i < tick_selection(actions, now).len() ==> {
                let p = tick_selection(actions, now)[i];
                &&& 0 <= p < actions.len()
                &&& actions[p].execute_at <= now
                &&& actions[p].status is Pending
            },
        forall|i: int, j: int|
            0 <= i < j < tick_selection(actions, now).len() ==> #[trigger] tick_selection(actions, now)[i]
                < #[trigger] tick_selection(actions, now)[j],
        tick_selection(actions, now).len() < MAX_ACTIONS_PER_TICK ==> forall|k: int|
            0 <= k < actions.len() && actions[k].execute_at <= now && #[trigger] actions[k].status is Pending
                ==> tick_selection(actions, now).contains(k),
{
    let n = actions.len() as int;
    lemma_due_positions_members(actions, now, n);
    let due = due_positions(actions, now, n);
    let sel = tick_selection(actions, now);
    if due.len() > MAX_ACTIONS_PER_TICK {
        assert forall|i: int| 0 <= i < sel.len() implies #[trigger] sel[i] == due[i] by {}
        assert forall|i: int, j: int| 0 <= i < j < sel.len() implies #[trigger] sel[i] < #[trigger] sel[j] by {
            assert(sel[i] == due[i]);
            assert(sel[j] == due[j]);
        }
    }
}

/// Cancelling schedule `id` gives the first stored action with that id,
/// marked cancelled and otherwise unchanged; it gives nothing exactly when
/// no stored action has that id.
pub proof fn lemma_cancellation(actions: Seq<ScheduledAction>, id: Seq<char>)
    ensures
        first_with_id(actions, id) is None <==> forall|k: int| 0 <= k < actions.len() ==> #[trigger] actions[k].id@ != id,
        first_with_id(actions, id) matches Some(i) ==> 0 <= i < actions.len() && actions[i].id@ == id && forall|k: int|
            0 <= k < i ==> #[trigger] actions[k].id@ != id,
    decreases actions.len(),
{
    if actions.len() > 0 {
        let rest = actions.drop_first();
        lemma_cancellation(rest, id);
        if actions[0].id@ != id {
            match first_with_id(rest, id) {
                Some(j) => {
                    assert(actions[j + 1] == rest[j]);
                    assert forall|k: int| 0 <= k < j + 1 implies #[trigger] actions[k].id@ != id by {
                        if k > 0 {
                            assert(actions[k] == rest[k - 1]);
                        }
                    }
                },
                None => {
                    assert forall|k: int| 0 <= k < actions.len() implies #[trigger] actions[k].id@ != id by {
                        if k > 0 {
                            assert(actions[k] == rest[k - 1]);
                        }
                    }
                },
            }
        }
    }
}

} // verus!
