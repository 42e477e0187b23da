//! The proactor: the wake-up flag of a worker and its timers.
//!
//! Timers are registered and cancelled by queueing operations on a bounded
//! queue; the operations are applied to the timer table when the proactor waits
//! (or when the queue is full). Waiting fires every timer whose deadline has
//! passed and bounds the sleep by the earliest timer still pending.
//!
//! Time is counted in ticks (nanoseconds from a clock origin the caller picks);
//! a timeout is a number of ticks.

use concurrent_queue::ConcurrentQueue;
use std::collections::BTreeMap;
use std::task::Waker;
use vstd::prelude::*;

use crate::timer_map::{key_before, keys_ascending, sorted_keys, table_insert, table_remove};
use crate::timer_ops::{
    apply_op, apply_ops, bounded_queue, capacity_of, lemma_apply_ops_first,
    pop_op, push_op, queue_capacity, queue_is_open, queued_ops, TimerOp,
};
use crate::waker::clone_waker;

verus! {

/// How many timer operations may wait in the queue before they are applied.
pub const TIMER_OP_CAPACITY: usize = 1024;

/// The keys of `table` whose deadline lies before `now`: the timers that fire.
pub open spec fn due_keys(table: Map<(u64, usize), Waker>, now: u64) -> Set<(u64, usize)> {
    table.dom().filter(|k: (u64, usize)| k.0 < now)
}

/// The timers of `table` that have not fired at `now`.
pub open spec fn pending_at(table: Map<(u64, usize), Waker>, now: u64) -> Map<(u64, usize), Waker> {
    table.remove_keys(due_keys(table, now))
}

/// `key` is a timer of `table` with the earliest deadline.
pub open spec fn is_earliest(table: Map<(u64, usize), Waker>, key: (u64, usize)) -> bool {
    &&& table.dom().contains(key)
    &&& forall|k: (u64, usize)| table.dom().contains(k) ==> key.0 <= k.0
}

/// The sleep bound that a timer table gives at `now`: none without timers,
/// zero when a timer has fired, else the ticks until the earliest deadline.
pub open spec fn timer_bound(table: Map<(u64, usize), Waker>, now: u64, bound: Option<u64>) -> bool {
    if !due_keys(table, now).is_empty() {
        bound == Some(0u64)
    } else if table.dom().is_empty() {
        bound is None
    } else {
        exists|k: (u64, usize)| is_earliest(table, k) && bound == Some((k.0 - now) as u64)
    }
}

/// The wakers handed out when `table` fires at `now`, appended to `before`:
/// one per due timer, in increasing key order.
pub open spec fn fired(
    table: Map<(u64, usize), Waker>,
    now: u64,
    before: Seq<Waker>,
    after: Seq<Waker>,
) -> bool {
    exists|keys: Seq<(u64, usize)>|
        {
            &&& keys_ascending(keys)
            &&& keys.to_set() == due_keys(table, now)
            &&& after == before + keys.map_values(|k: (u64, usize)| table[k])
        }
}

/// The combined sleep bound of a wait: the earlier of the two, or whichever is given.
pub open spec fn earlier_timeout(a: Option<u64>, b: Option<u64>) -> Option<u64> {
    match (a, b) {
        (None, None) => None,
        (Some(t), None) => Some(t),
        (None, Some(t)) => Some(t),
        (Some(x), Some(y)) => Some(if x <= y { x } else { y }),
    }
}

/// The id handed out after `id`: ids advance by one and wrap around.
pub open spec fn next_timer_id(id: usize) -> usize {
    if id == usize::MAX {
        0
    } else {
        (id + 1) as usize
    }
}

/// The earlier of two sleep bounds, or whichever is given.
pub fn earlier_of(a: Option<u64>, b: Option<u64>) -> (bound: Option<u64>)
    ensures
        bound == earlier_timeout(a, b),
{
    match (a, b) {
        (None, None) => None,
        (Some(t), None) => Some(t),
        (None, Some(t)) => Some(t),
        (Some(x), Some(y)) => Some(if x <= y { x } else { y }),
    }
}

/// At any time each timer either fires or stays pending, never both; and a
/// timer that stays pending keeps its waker.
pub proof fn lemma_timers_fire_or_stay(table: Map<(u64, usize), Waker>, now: u64)
    ensures
        forall|k: (u64, usize)|
            table.dom().contains(k) ==> (due_keys(table, now).contains(k) != #[trigger] pending_at(
                table,
                now,
            ).dom().contains(k)),
        forall|k: (u64, usize)| #[trigger] pending_at(table, now).dom().contains(k) ==> table.dom().contains(k)
            && pending_at(table, now)[k] == table[k],
{
}

/// A timer registered with a deadline before `now` fires at `now`; a timer
/// whose deadline is not before `now` stays pending with the waker it was
/// registered with.
pub proof fn lemma_registered_timer_fires(table: Map<(u64, usize), Waker>, key: (u64, usize), waker: Waker, now: u64)
    ensures
        key.0 < now ==> due_keys(table.insert(key, waker), now).contains(key) && !pending_at(
            table.insert(key, waker),
            now,
        ).dom().contains(key),
        key.0 >= now ==> !due_keys(table.insert(key, waker), now).contains(key) && pending_at(
            table.insert(key, waker),
            now,
        ).dom().contains(key) && pending_at(table.insert(key, waker), now)[key] == waker,
{
}

/// A firing hands out one waker per timer whose deadline lies before `now`,
/// after the wakers handed out before: as many new wakers as due timers, and
/// the new wakers are those of distinct due timers, one each.
pub proof fn lemma_firing_wakes_every_due_timer(
    table: Map<(u64, usize), Waker>,
    now: u64,
    before: Seq<Waker>,
    after: Seq<Waker>,
)
    requires
        table.dom().finite(),
        fired(table, now, before, after),
    ensures
        after.len() == before.len() + table.dom().filter(|k: (u64, usize)| k.0 < now).len(),
        after.subrange(0, before.len() as int) == before,
        exists|ks: Seq<(u64, usize)>|
            {
                &&& before.len() + ks.len() == after.len()
                &&& ks.no_duplicates()
                &&& forall|i: int|
                    0 <= i < ks.len() ==> table.dom().contains(#[trigger] ks[i]) && ks[i].0 < now
                        && after[before.len() + i] == table[ks[i]]
            },
{
    let keys = choose|keys: Seq<(u64, usize)>|
        {
            &&& after == before + keys.map_values(|k: (u64, usize)| table[k])
            &&& keys_ascending(keys)
            &&& due_keys(table, now) == keys.to_set()
        };
    assert(keys.no_duplicates()) by {
        assert forall|i: int, j: int| 0 <= i < keys.len() && 0 <= j < keys.len() && i != j implies keys[i]
            != keys[j] by {
            if i < j {
                assert(key_before(keys[i], keys[j]));
            } else {
                assert(key_before(keys[j], keys[i]));
            }
        }
    }
    keys.unique_seq_to_set();
    assert(due_keys(table, now) == table.dom().filter(|k: (u64, usize)| k.0 < now));
    assert(after.subrange(0, before.len() as int) =~= before);
    assert forall|i: int| 0 <= i < keys.len() implies table.dom().contains(#[trigger] keys[i]) && keys[i].0 < now
        && after[before.len() + i] == table[keys[i]] by {
        assert(keys.contains(keys[i]));
        assert(keys.to_set().contains(keys[i]));
        assert(due_keys(table, now).contains(keys[i]));
    }
}

/// The sleep bound of a wait: zero when some timer is due, none without
/// timers, and otherwise exactly the ticks from `now` to the smallest
/// deadline in the table.
pub proof fn lemma_bound_is_earliest_deadline(table: Map<(u64, usize), Waker>, now: u64, bound: Option<u64>)
    requires
        timer_bound(table, now, bound),
    ensures
        (exists|k: (u64, usize)| table.dom().contains(k) && k.0 < now) ==> bound == Some(0u64),
        (forall|k: (u64, usize)| !table.dom().contains(k)) ==> bound is None,
        ((forall|k: (u64, usize)| table.dom().contains(k) ==> k.0 >= now) && (exists|k: (u64, usize)|
            table.dom().contains(k))) ==> {
            &&& bound is Some
            &&& forall|k: (u64, usize)| table.dom().contains(k) ==> now + bound->0 <= k.0
            &&& exists|k: (u64, usize)| table.dom().contains(k) && k.0 == now + bound->0
        },
{
    if exists|k: (u64, usize)| table.dom().contains(k) && k.0 < now {
        let k = choose|k: (u64, usize)| table.dom().contains(k) && k.0 < now;
        assert(due_keys(table, now).contains(k));
    } else if forall|k: (u64, usize)| !table.dom().contains(k) {
        assert(due_keys(table, now) =~= Set::<(u64, usize)>::empty());
        assert(table.dom() =~= Set::<(u64, usize)>::empty());
    } else {
        assert(due_keys(table, now) =~= Set::<(u64, usize)>::empty());
        let k0 = choose|k: (u64, usize)| table.dom().contains(k);
        assert(!table.dom().is_empty()) by {
            assert(table.dom().contains(k0));
        }
        let k = choose|k: (u64, usize)| is_earliest(table, k) && bound == Some((k.0 - now) as u64);
        assert(k.0 >= now);
        assert(table.dom().contains(k) && k.0 == now + bound->0);
    }
}

/// Timers that have fired are gone: firing again at the same time fires nothing.
pub proof fn lemma_fired_timers_do_not_fire_again(table: Map<(u64, usize), Waker>, now: u64)
    ensures
        due_keys(pending_at(table, now), now) == Set::<(u64, usize)>::empty(),
{
    assert(due_keys(pending_at(table, now), now) =~= Set::<(u64, usize)>::empty());
}

/// The combined sleep bound is given exactly when one of the two is, and it
/// is one of them and no later than either.
pub proof fn lemma_earlier_timeout_is_earliest(a: Option<u64>, b: Option<u64>)
    ensures
        earlier_timeout(a, b) is None <==> (a is None && b is None),
        earlier_timeout(a, b) matches Some(t) ==> (a == Some(t) || b == Some(t)),
        earlier_timeout(a, b) matches Some(t) ==> (a matches Some(x) ==> t <= x),
        earlier_timeout(a, b) matches Some(t) ==> (b matches Some(y) ==> t <= y),
{
}

/// Every timer of `table` has an id from `issued`.
pub open spec fn ids_from(table: Map<(u64, usize), Waker>, issued: Set<usize>) -> bool {
    forall|k: (u64, usize)| table.dom().contains(k) ==> issued.contains(k.1)
}

/// A timer registered under a fresh id never collides with a timer in force,
/// whatever its deadline, when every timer in force took its id from the same
/// source.
pub proof fn lemma_fresh_id_gives_fresh_key(table: Map<(u64, usize), Waker>, ids: TimerIds, when: u64, id: usize)
    requires
        ids_from(table, ids.issued()),
        ids.is_fresh(id),
    ensures
        !table.contains_key((when, id)),
{
}

/// The source of timer ids: one per process, so that a key `(deadline, id)`
/// names one timer on every proactor. Ids are handed out counting up from 1
/// and wrap around after `usize::MAX`.
pub struct TimerIds {
    next: usize,
}

impl TimerIds {
    /// The id handed out next.
    pub closed spec fn next_id(&self) -> usize {
        self.next
    }

    /// The ids handed out so far, while the count has not wrapped: 1 up to
    /// the next id.
    pub open spec fn issued(&self) -> Set<usize> {
        Set::new(|i: usize| 1 <= i < self.next_id())
    }

    /// The count has not wrapped: the next id is no repeat.
    pub open spec fn unexhausted(&self) -> bool {
        1 <= self.next_id()
    }

    /// `id` is at least 1 and was never handed out before.
    pub open spec fn is_fresh(&self, id: usize) -> bool {
        1 <= id && !self.issued().contains(id)
    }

    /// A source that has handed out no id.
    pub fn new() -> (ids: TimerIds)
        ensures
            ids.next_id() == 1,
            ids.issued() == Set::<usize>::empty(),
    {
        let ids = TimerIds { next: 1 };
        assert(ids.issued() =~= Set::<usize>::empty());
        ids
    }

    /// Hands out the next id. While the source is unexhausted, the id is
    /// fresh; it joins the issued ids unless it was the last one, `usize::MAX`,
    /// after which the count wraps.
    pub fn fresh(&mut self) -> (id: usize)
        ensures
            id == old(self).next_id(),
            final(self).next_id() == next_timer_id(old(self).next_id()),
            old(self).unexhausted() ==> old(self).is_fresh(id),
            (old(self).unexhausted() && old(self).next_id() < usize::MAX) ==> final(self).issued() == old(
                self,
            ).issued().insert(id),
    {
        let id = self.next;
        self.next = self.next.wrapping_add(1);
        proof {
            if old(self).unexhausted() && old(self).next_id() < usize::MAX {
                assert(self.issued() =~= old(self).issued().insert(id));
            }
        }
        id
    }
}

/// How a call to select on the ring ended.
#[derive(Clone, Copy, Debug, PartialEq, Eq)]
pub enum SelectOutcome {
    /// The call returned this many events.
    Completed(usize),
    /// A signal interrupted the call.
    Interrupted,
    /// The call failed otherwise.
    Failed,
}

/// Per-worker scheduling state: the wake-up flag, the queue of timer
/// operations and the timer table.
pub struct Proactor {
    notified: bool,
    wake_requested: bool,
    timer_ops: ConcurrentQueue<TimerOp>,
    timers: BTreeMap<(u64, usize), Waker>,
}

impl Proactor {
    /// The queue is open, has its fixed capacity, and holds no more than that.
    pub closed spec fn wf(&self) -> bool {
        &&& queue_capacity(self.timer_ops) == Some(TIMER_OP_CAPACITY)
        &&& queue_is_open(self.timer_ops)
        &&& queued_ops(self.timer_ops).len() <= TIMER_OP_CAPACITY
    }

    /// Whether a wake-up has been signalled since the last wait.
    pub closed spec fn is_notified(&self) -> bool {
        self.notified
    }

    /// Whether the caller owes a write to the wake-up event descriptor.
    pub closed spec fn wake_pending(&self) -> bool {
        self.wake_requested
    }

    /// Timer operations not yet applied, oldest first.
    pub closed spec fn pending_ops(&self) -> Seq<TimerOp> {
        queued_ops(self.timer_ops)
    }

    /// The timer table as applied so far.
    pub closed spec fn timer_table(&self) -> Map<(u64, usize), Waker> {
        self.timers@
    }

    /// The timers in force: the table with every queued operation applied.
    pub open spec fn scheduled(&self) -> Map<(u64, usize), Waker> {
        apply_ops(self.timer_table(), self.pending_ops())
    }

    /// A proactor with no timers, no pending operation, and no wake-up signalled.
    pub fn new() -> (p: Proactor)
        ensures
            p.wf(),
            !p.is_notified(),
            !p.wake_pending(),
            p.pending_ops() == Seq::<TimerOp>::empty(),
            p.timer_table() == Map::<(u64, usize), Waker>::empty(),
    {
        Proactor {
            notified: false,
            wake_requested: false,
            timer_ops: bounded_queue(TIMER_OP_CAPACITY),
            timers: BTreeMap::new(),
        }
    }

    /// Signals a wake-up. Only the first signal after a wait claims the flag;
    /// the claim requests one write to the wake-up event descriptor.
    pub fn notify(&mut self) -> (claimed: bool)
        ensures
            claimed == !old(self).is_notified(),
            final(self).is_notified(),
            final(self).wake_pending() == (old(self).wake_pending() || claimed),
            final(self).pending_ops() == old(self).pending_ops(),
            final(self).timer_table() == old(self).timer_table(),
            final(self).wf() == old(self).wf(),
    {
        if !self.notified {
            self.notified = true;
            self.wake_requested = true;
            true
        } else {
            false
        }
    }

    /// Hands over the requested write to the wake-up event descriptor, if any.
    pub fn take_wake_request(&mut self) -> (requested: bool)
        ensures
            requested == old(self).wake_pending(),
            !final(self).wake_pending(),
            final(self).is_notified() == old(self).is_notified(),
            final(self).pending_ops() == old(self).pending_ops(),
            final(self).timer_table() == old(self).timer_table(),
            final(self).wf() == old(self).wf(),
    {
        let requested = self.wake_requested;
        self.wake_requested = false;
        requested
    }

    /// Clears the wake-up flag and says whether it was set.
    pub fn clear_notified(&mut self) -> (was: bool)
        ensures
            was == old(self).is_notified(),
            !final(self).is_notified(),
            final(self).wake_pending() == old(self).wake_pending(),
            final(self).pending_ops() == old(self).pending_ops(),
            final(self).timer_table() == old(self).timer_table(),
            final(self).wf() == old(self).wf(),
    {
        let was = self.notified;
        self.notified = false;
        was
    }

    /// Applies every queued timer operation to the table, oldest first.
    pub fn process_timer_ops(&mut self)
        requires
            old(self).wf(),
        ensures
            final(self).wf(),
            final(self).pending_ops() == Seq::<TimerOp>::empty(),
            final(self).timer_table() == old(self).scheduled(),
            final(self).scheduled() == old(self).scheduled(),
            final(self).is_notified() == old(self).is_notified(),
            final(self).wake_pending() == old(self).wake_pending(),
    {
        let ghost target = self.scheduled();
        let cap = capacity_of(&self.timer_ops).unwrap();
        let mut done: usize = 0;
        while done < cap
            invariant
                cap == TIMER_OP_CAPACITY,
                done <= cap,
                self.wf(),
                self.scheduled() == target,
                queued_ops(self.timer_ops).len() + done <= cap,
                self.notified == old(self).notified,
                self.wake_requested == old(self).wake_requested,
            ensures
                self.wf(),
                self.scheduled() == target,
                queued_ops(self.timer_ops).len() == 0,
                self.notified == old(self).notified,
                self.wake_requested == old(self).wake_requested,
            decreases cap - done,
        {
            let ghost ops = queued_ops(self.timer_ops);
            let ghost table = self.timers@;
            match pop_op(&mut self.timer_ops) {
                Some(TimerOp::Insert(when, id, waker)) => {
                    proof {
                        lemma_apply_ops_first(table, ops);
                    }
                    table_insert(&mut self.timers, (when, id), waker);
                },
                Some(TimerOp::Remove(when, id)) => {
                    proof {
                        lemma_apply_ops_first(table, ops);
                    }
                    table_remove(&mut self.timers, (when, id));
                },
                None => {
                    break;
                },
            }
            done = done + 1;
        }
        assert(queued_ops(self.timer_ops) =~= Seq::<TimerOp>::empty());
    }

    /// Queues the registration of a clone of `waker` under a fresh timer id,
    /// taken from `ids`, at deadline `when`, and signals a wake-up. When the queue is full, the queued
    /// operations are applied first.
    pub fn insert_timer(&mut self, when: u64, waker: &Waker, ids: &mut TimerIds) -> (id: usize)
        requires
            old(self).wf(),
        ensures
            final(self).wf(),
            id == old(ids).next_id(),
            final(ids).next_id() == next_timer_id(old(ids).next_id()),
            old(ids).unexhausted() ==> old(ids).is_fresh(id),
            (old(ids).unexhausted() && old(ids).next_id() < usize::MAX) ==> final(ids).issued() == old(
                ids,
            ).issued().insert(id),
            (old(ids).unexhausted() && ids_from(old(self).scheduled(), old(ids).issued())) ==> !old(
                self,
            ).scheduled().contains_key((when, id)),
            (old(ids).unexhausted() && old(ids).next_id() < usize::MAX && ids_from(
                old(self).scheduled(),
                old(ids).issued(),
            )) ==> ids_from(final(self).scheduled(), final(ids).issued()),
            final(self).pending_ops().len() > 0,
            final(self).pending_ops().last() matches TimerOp::Insert(t, i, w) && t == when && i == id
                && final(self).scheduled() == old(self).scheduled().insert((when, id), w)
                && cloned::<Waker>(*waker, w),
            old(self).pending_ops().len() < TIMER_OP_CAPACITY ==> {
                &&& final(self).timer_table() == old(self).timer_table()
                &&& final(self).pending_ops().drop_last() == old(self).pending_ops()
            },
            old(self).pending_ops().len() >= TIMER_OP_CAPACITY ==> {
                &&& final(self).timer_table() == old(self).scheduled()
                &&& final(self).pending_ops().len() == 1
            },
            final(self).is_notified(),
            final(self).wake_pending() == (old(self).wake_pending() || !old(self).is_notified()),
    {
        let id = ids.fresh();
        let mut op = TimerOp::Insert(when, id, clone_waker(waker));
        let ghost first_op = op;
        let ghost start = self.scheduled();
        let ghost start_table = self.timers@;
        let ghost start_len = queued_ops(self.timer_ops).len();
        let ghost start_ops = queued_ops(self.timer_ops);
        loop
            invariant_except_break
                self.wf(),
                op == first_op,
                self.scheduled() == start,
                self.notified == old(self).notified,
                self.wake_requested == old(self).wake_requested,
                start_ops == old(self).pending_ops(),
                start_len == start_ops.len(),
                start_len < TIMER_OP_CAPACITY ==> self.timers@ == start_table && queued_ops(self.timer_ops) == start_ops,
                start_len >= TIMER_OP_CAPACITY ==> (self.timers@ == start_table && queued_ops(self.timer_ops) == start_ops)
                    || (self.timers@ == start && queued_ops(self.timer_ops).len() == 0),
            ensures
                self.wf(),
                self.notified == old(self).notified,
                self.wake_requested == old(self).wake_requested,
                queued_ops(self.timer_ops).last() == first_op,
                queued_ops(self.timer_ops).len() > 0,
                apply_ops(self.timers@, queued_ops(self.timer_ops).drop_last()) == start,
                start_len < TIMER_OP_CAPACITY ==> self.timers@ == start_table
                    && queued_ops(self.timer_ops).drop_last() == old(self).pending_ops(),
                start_len >= TIMER_OP_CAPACITY ==> self.timers@ == start && queued_ops(self.timer_ops).len() == 1,
            decreases queued_ops(self.timer_ops).len(),
        {
            let ghost before = queued_ops(self.timer_ops);
            match push_op(&mut self.timer_ops, op) {
                Ok(()) => {
                    assert(queued_ops(self.timer_ops).drop_last() =~= before);
                    break;
                },
                Err(back) => {
                    op = back;
                    self.process_timer_ops();
                },
            }
        }
        proof {
            let ops = queued_ops(self.timer_ops);
            assert(ops =~= ops.drop_last().push(first_op));
            assert(apply_ops(self.timers@, ops) == apply_op(apply_ops(self.timers@, ops.drop_last()), ops.last()));
        }
        self.notify();
        id
    }

    /// Queues the cancellation of the timer `(when, id)`. When the queue is
    /// full, the queued operations are applied first.
    pub fn remove_timer(&mut self, when: u64, id: usize)
        requires
            old(self).wf(),
        ensures
            final(self).wf(),
            final(self).scheduled() == old(self).scheduled().remove((when, id)),
            final(self).pending_ops().len() > 0,
            final(self).pending_ops().last() == TimerOp::Remove(when, id),
            old(self).pending_ops().len() < TIMER_OP_CAPACITY ==> {
                &&& final(self).timer_table() == old(self).timer_table()
                &&& final(self).pending_ops().drop_last() == old(self).pending_ops()
            },
            old(self).pending_ops().len() >= TIMER_OP_CAPACITY ==> {
                &&& final(self).timer_table() == old(self).scheduled()
                &&& final(self).pending_ops().len() == 1
            },
            final(self).is_notified() == old(self).is_notified(),
            final(self).wake_pending() == old(self).wake_pending(),
    {
        let mut op = TimerOp::Remove(when, id);
        let ghost start = self.scheduled();
        let ghost start_table = self.timers@;
        let ghost start_len = queued_ops(self.timer_ops).len();
        let ghost start_ops = queued_ops(self.timer_ops);
        loop
            invariant_except_break
                self.wf(),
                op == TimerOp::Remove(when, id),
                self.scheduled() == start,
                self.notified == old(self).notified,
                self.wake_requested == old(self).wake_requested,
                start_ops == old(self).pending_ops(),
                start_len == start_ops.len(),
                start_len < TIMER_OP_CAPACITY ==> self.timers@ == start_table && queued_ops(self.timer_ops) == start_ops,
                start_len >= TIMER_OP_CAPACITY ==> (self.timers@ == start_table && queued_ops(self.timer_ops) == start_ops)
                    || (self.timers@ == start && queued_ops(self.timer_ops).len() == 0),
            ensures
                self.wf(),
                self.notified == old(self).notified,
                self.wake_requested == old(self).wake_requested,
                queued_ops(self.timer_ops).last() == TimerOp::Remove(when, id),
                queued_ops(self.timer_ops).len() > 0,
                apply_ops(self.timers@, queued_ops(self.timer_ops).drop_last()) == start,
                start_len < TIMER_OP_CAPACITY ==> self.timers@ == start_table
                    && queued_ops(self.timer_ops).drop_last() == old(self).pending_ops(),
                start_len >= TIMER_OP_CAPACITY ==> self.timers@ == start && queued_ops(self.timer_ops).len() == 1,
            decreases queued_ops(self.timer_ops).len(),
        {
            let ghost before = queued_ops(self.timer_ops);
            match push_op(&mut self.timer_ops, op) {
                Ok(()) => {
                    assert(queued_ops(self.timer_ops).drop_last() =~= before);
                    break;
                },
                Err(back) => {
                    op = back;
                    self.process_timer_ops();
                },
            }
        }
        proof {
            let ops = queued_ops(self.timer_ops);
            assert(apply_ops(self.timers@, ops) == apply_op(apply_ops(self.timers@, ops.drop_last()), ops.last()));
        }
    }

    /// Applies the queued timer operations, then fires every timer whose
    /// deadline lies before `now`: each such timer leaves the table and its
    /// waker is appended to `wakers`, in key order. Returns the sleep bound the
    /// timers give: zero if one fired, else the ticks until the earliest
    /// pending deadline, or none when no timer is left.
    pub fn process_timers(&mut self, now: u64, wakers: &mut Vec<Waker>) -> (bound: Option<u64>)
        requires
            old(self).wf(),
        ensures
            final(self).wf(),
            final(self).pending_ops() == Seq::<TimerOp>::empty(),
            final(self).timer_table() == pending_at(old(self).scheduled(), now),
            fired(old(self).scheduled(), now, old(wakers)@, final(wakers)@),
            timer_bound(old(self).scheduled(), now, bound),
            final(wakers)@.len() == old(wakers)@.len() + old(self).scheduled().dom().filter(
                |k: (u64, usize)| k.0 < now,
            ).len(),
            (exists|k: (u64, usize)| old(self).scheduled().dom().contains(k) && k.0 < now) ==> bound == Some(0u64),
            (forall|k: (u64, usize)| !old(self).scheduled().dom().contains(k)) ==> bound is None,
            ((forall|k: (u64, usize)| old(self).scheduled().dom().contains(k) ==> k.0 >= now) && (exists|
                k: (u64, usize),
            | old(self).scheduled().dom().contains(k))) ==> {
                &&& bound is Some
                &&& forall|k: (u64, usize)| old(self).scheduled().dom().contains(k) ==> now + bound->0 <= k.0
                &&& exists|k: (u64, usize)| old(self).scheduled().dom().contains(k) && k.0 == now + bound->0
            },
            final(self).is_notified() == old(self).is_notified(),
            final(self).wake_pending() == old(self).wake_pending(),
    {
        let bound = self.process_timers_in_order(now, wakers);
        proof {
            let table = old(self).scheduled();
            lemma_firing_wakes_every_due_timer(table, now, old(wakers)@, wakers@);
            lemma_bound_is_earliest_deadline(table, now, bound);
        }
        bound
    }

    /// Fires the due timers in key order; see `process_timers`.
    fn process_timers_in_order(&mut self, now: u64, wakers: &mut Vec<Waker>) -> (bound: Option<u64>)
        requires
            old(self).wf(),
        ensures
            final(self).wf(),
            final(self).pending_ops() == Seq::<TimerOp>::empty(),
            final(self).timer_table() == pending_at(old(self).scheduled(), now),
            fired(old(self).scheduled(), now, old(wakers)@, final(wakers)@),
            timer_bound(old(self).scheduled(), now, bound),
            old(self).scheduled().dom().finite(),
            final(self).is_notified() == old(self).is_notified(),
            final(self).wake_pending() == old(self).wake_pending(),
    {
        self.process_timer_ops();
        let ghost table = self.timers@;
        let ghost start_wakers = wakers@;
        let keys = sorted_keys(&self.timers);
        proof {
            vstd::seq_lib::seq_to_set_is_finite(keys@);
        }
        let mut i: usize = 0;
        assert(keys@.take(0).to_set() =~= Set::<(u64, usize)>::empty());
        assert(table.remove_keys(Set::<(u64, usize)>::empty()) =~= table);
        assert(keys@.take(0).map_values(|k: (u64, usize)| table[k]) =~= Seq::<Waker>::empty());
        assert(start_wakers + Seq::<Waker>::empty() =~= start_wakers);
        while i < keys.len() && keys[i].0 < now
            invariant
                i <= keys.len(),
                keys@.to_set() == table.dom(),
                keys_ascending(keys@),
                forall|j: int| 0 <= j < i ==> #[trigger] keys@[j].0 < now,
                self.timers@ == table.remove_keys(keys@.take(i as int).to_set()),
                wakers@ == start_wakers + keys@.take(i as int).map_values(|k: (u64, usize)| table[k]),
                self.wf(),
                queued_ops(self.timer_ops) == Seq::<TimerOp>::empty(),
                self.notified == old(self).notified,
                self.wake_requested == old(self).wake_requested,
            decreases keys.len() - i,
        {
            let key = keys[i];
            proof {
                assert(keys@.contains(key));
                assert(keys@.to_set().contains(key));
                assert forall|j: int| 0 <= j < i implies keys@[j] != key by {
                    assert(key_before(keys@[j], keys@[i as int]));
                }
                assert(!keys@.take(i as int).to_set().contains(key)) by {
                    if keys@.take(i as int).to_set().contains(key) {
                        assert(keys@.take(i as int).contains(key));
                        let j = choose|j: int| 0 <= j < i && keys@.take(i as int)[j] == key;
                        assert(keys@[j] == key);
                    }
                }
            }
            let removed = table_remove(&mut self.timers, key);
            let waker = removed.unwrap();
            wakers.push(waker);
            proof {
                assert(keys@.take(i + 1) =~= keys@.take(i as int).push(key));
                let before = keys@.take(i as int);
                let after = keys@.take(i + 1);
                assert forall|x: (u64, usize)| after.to_set().contains(x) <==> before.to_set().insert(key).contains(x) by {
                    if after.contains(x) {
                        let j = choose|j: int| 0 <= j < after.len() && after[j] == x;
                        if j < i {
                            assert(before[j] == x);
                            assert(before.contains(x));
                        }
                    }
                    if before.contains(x) {
                        let j = choose|j: int| 0 <= j < before.len() && before[j] == x;
                        assert(after[j] == x);
                    }
                    if x == key {
                        assert(after[i as int] == x);
                    }
                }
                assert(after.to_set() =~= before.to_set().insert(key));
                assert(self.timers@ =~= table.remove_keys(keys@.take(i + 1).to_set()));
                assert(keys@.take(i + 1).map_values(|k: (u64, usize)| table[k]) =~= keys@.take(i as int).map_values(
                    |k: (u64, usize)| table[k],
                ).push(table[key]));
                assert(wakers@ =~= start_wakers + keys@.take(i + 1).map_values(|k: (u64, usize)| table[k]));
            }
            i = i + 1;
        }
        let ghost fired_keys = keys@.take(i as int);
        proof {
            assert forall|k: (u64, usize)| due_keys(table, now).contains(k) implies fired_keys.to_set().contains(k) by {
                assert(keys@.to_set().contains(k));
                assert(keys@.contains(k));
                let j = choose|j: int| 0 <= j < keys@.len() && keys@[j] == k;
                if j >= i {
                    assert(i < keys.len());
                    assert(keys@[i as int].0 >= now);
                    if j > i {
                        assert(key_before(keys@[i as int], keys@[j]));
                    }
                    assert(false);
                }
                assert(fired_keys[j] == k);
                assert(fired_keys.contains(k));
            }
            assert forall|k: (u64, usize)| fired_keys.to_set().contains(k) implies due_keys(table, now).contains(k) by {
                assert(fired_keys.contains(k));
                let j = choose|j: int| 0 <= j < fired_keys.len() && fired_keys[j] == k;
                assert(keys@[j] == k);
                assert(keys@.contains(k));
            }
            assert(due_keys(table, now) =~= fired_keys.to_set());
            assert forall|a: int, b: int| 0 <= a < b < fired_keys.len() implies key_before(
                #[trigger] fired_keys[a],
                #[trigger] fired_keys[b],
            ) by {
                assert(key_before(keys@[a], keys@[b]));
            }
            assert(keys_ascending(fired_keys));
        }
        if i > 0 {
            proof {
                assert(due_keys(table, now).contains(keys@[0]));
            }
            Some(0)
        } else if i < keys.len() {
            let first = keys[i];
            proof {
                assert(due_keys(table, now) =~= Set::<(u64, usize)>::empty());
                assert(keys@.contains(first));
                assert forall|k: (u64, usize)| table.dom().contains(k) implies first.0 <= k.0 by {
                    assert(keys@.to_set().contains(k));
                    assert(keys@.contains(k));
                    let j = choose|j: int| 0 <= j < keys@.len() && keys@[j] == k;
                    if j > 0 {
                        assert(key_before(keys@[0], keys@[j]));
                    }
                }
                assert(is_earliest(table, first));
            }
            Some(first.0 - now)
        } else {
            proof {
                assert(keys@.len() == 0);
                assert(keys@.to_set() =~= Set::<(u64, usize)>::empty());
                assert(table.dom() =~= Set::<(u64, usize)>::empty());
            }
            None
        }
    }

    /// The first half of a wait: fires the due timers at `now` and gives the
    /// sleep bound for the ring: the earlier of the timers' bound and `timeout`.
    pub fn prepare_wait(&mut self, now: u64, timeout: Option<u64>, wakers: &mut Vec<Waker>) -> (bound: Option<u64>)
        requires
            old(self).wf(),
        ensures
            final(self).wf(),
            final(self).pending_ops() == Seq::<TimerOp>::empty(),
            final(self).timer_table() == pending_at(old(self).scheduled(), now),
            fired(old(self).scheduled(), now, old(wakers)@, final(wakers)@),
            exists|next: Option<u64>| timer_bound(old(self).scheduled(), now, next) && bound == earlier_timeout(next, timeout),
            final(self).is_notified() == old(self).is_notified(),
            final(self).wake_pending() == old(self).wake_pending(),
    {
        let next = self.process_timers(now, wakers);
        earlier_of(next, timeout)
    }

    /// The second half of a wait, once the ring has been waited on: clears the
    /// wake-up flag; when the wait timed out with no event (and the bound was not
    /// zero) fires the timers due at `now`. Returns false exactly when the wait
    /// failed for a reason other than an interruption.
    pub fn finish_wait(
        &mut self,
        outcome: SelectOutcome,
        bound: Option<u64>,
        now: u64,
        wakers: &mut Vec<Waker>,
    ) -> (ok: bool)
        requires
            old(self).wf(),
        ensures
            final(self).wf(),
            !final(self).is_notified(),
            ok == !(outcome is Failed),
            final(self).wake_pending() == old(self).wake_pending(),
            (outcome == SelectOutcome::Completed(0) && bound != Some(0u64)) ==> {
                &&& final(self).pending_ops() == Seq::<TimerOp>::empty()
                &&& final(self).timer_table() == pending_at(old(self).scheduled(), now)
                &&& fired(old(self).scheduled(), now, old(wakers)@, final(wakers)@)
            },
            !(outcome == SelectOutcome::Completed(0) && bound != Some(0u64)) ==> {
                &&& final(self).pending_ops() == old(self).pending_ops()
                &&& final(self).timer_table() == old(self).timer_table()
                &&& final(wakers)@ == old(wakers)@
            },
    {
        self.clear_notified();
        match outcome {
            SelectOutcome::Completed(n) => {
                if n == 0 {
                    let zero = match bound {
                        Some(t) => t == 0,
                        None => false,
                    };
                    if !zero {
                        self.process_timers(now, wakers);
                    }
                }
                true
            },
            SelectOutcome::Interrupted => true,
            SelectOutcome::Failed => false,
        }
    }
}

} // verus!
