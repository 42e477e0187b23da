//! Timer operations and the bounded queue that buffers them.
//!
//! Timers are inserted and removed by queueing an operation; the operations are
//! applied to the timer table in the order they were queued.

use concurrent_queue::{ConcurrentQueue, PushError};
use std::task::Waker;
use vstd::prelude::*;

verus! {

/// A change to the timer table: register a waker under a key, or drop the key.
/// A key is a deadline (in ticks) and a timer id.
pub enum TimerOp {
    Insert(u64, usize, Waker),
    Remove(u64, usize),
}

/// The timer table after one operation.
pub open spec fn apply_op(table: Map<(u64, usize), Waker>, op: TimerOp) -> Map<(u64, usize), Waker> {
    match op {
        TimerOp::Insert(when, id, waker) => table.insert((when, id), waker),
        TimerOp::Remove(when, id) => table.remove((when, id)),
    }
}

/// The timer table after a sequence of operations, applied first to last.
pub open spec fn apply_ops(table: Map<(u64, usize), Waker>, ops: Seq<TimerOp>) -> Map<(u64, usize), Waker>
    decreases ops.len(),
{
    if ops.len() == 0 {
        table
    } else {
        apply_op(apply_ops(table, ops.drop_last()), ops.last())
    }
}

/// Applying a sequence of operations is applying its first operation, then the rest.
pub proof fn lemma_apply_ops_first(table: Map<(u64, usize), Waker>, ops: Seq<TimerOp>)
    requires
        ops.len() > 0,
    ensures
        apply_ops(table, ops) == apply_ops(apply_op(table, ops[0]), ops.drop_first()),
    decreases ops.len(),
{
    if ops.len() == 1 {
        assert(ops.drop_last() =~= Seq::<TimerOp>::empty());
        assert(ops.drop_first() =~= Seq::<TimerOp>::empty());
        assert(apply_ops(table, ops.drop_last()) == table);
        assert(ops.last() == ops[0]);
    } else {
        lemma_apply_ops_first(table, ops.drop_last());
        assert(ops.drop_last().drop_first() =~= ops.drop_first().drop_last());
        assert(ops.drop_last()[0] == ops[0]);
        assert(ops.drop_first().last() == ops.last());
        let x = apply_op(table, ops[0]);
        assert(apply_ops(x, ops.drop_first()) == apply_op(apply_ops(x, ops.drop_first().drop_last()), ops.drop_first().last()));
    }
}

/// Applying two sequences one after the other is applying their concatenation.
pub proof fn lemma_apply_ops_append(table: Map<(u64, usize), Waker>, first: Seq<TimerOp>, then: Seq<TimerOp>)
    ensures
        apply_ops(apply_ops(table, first), then) == apply_ops(table, first + then),
    decreases then.len(),
{
    if then.len() == 0 {
        assert(first + then =~= first);
    } else {
        lemma_apply_ops_append(table, first, then.drop_last());
        assert((first + then).drop_last() =~= first + then.drop_last());
        assert((first + then).last() == then.last());
    }
}

/// Cancelling a timer right after registering it, under a key not in force,
/// leaves the timers in force as they were.
pub proof fn lemma_cancel_undoes_register(
    table: Map<(u64, usize), Waker>,
    ops: Seq<TimerOp>,
    when: u64,
    id: usize,
    waker: Waker,
)
    requires
        !apply_ops(table, ops).contains_key((when, id)),
    ensures
        apply_ops(table, ops.push(TimerOp::Insert(when, id, waker)).push(TimerOp::Remove(when, id)))
            == apply_ops(table, ops),
{
    let with_insert = ops.push(TimerOp::Insert(when, id, waker));
    let both = with_insert.push(TimerOp::Remove(when, id));
    assert(both.drop_last() =~= with_insert);
    assert(with_insert.drop_last() =~= ops);
    assert(apply_ops(table, with_insert) == apply_ops(table, ops).insert((when, id), waker));
    assert(apply_ops(table, both) == apply_ops(table, with_insert).remove((when, id)));
    assert(apply_ops(table, ops).insert((when, id), waker).remove((when, id)) =~= apply_ops(table, ops));
}

/// `concurrent_queue::ConcurrentQueue`, the bounded queue of pending timer operations.
#[verifier::external_type_specification]
#[verifier::external_body]
#[verifier::reject_recursive_types(T)]
pub struct ExConcurrentQueue<T>(ConcurrentQueue<T>);

/// The operations held by a queue, oldest first.
pub uninterp spec fn queued_ops(queue: ConcurrentQueue<TimerOp>) -> Seq<TimerOp>;

/// The capacity a queue was made with (`None` for an unbounded queue).
pub uninterp spec fn queue_capacity(queue: ConcurrentQueue<TimerOp>) -> Option<usize>;

/// Whether a queue still accepts pushes (it has not been closed).
pub uninterp spec fn queue_is_open(queue: ConcurrentQueue<TimerOp>) -> bool;

/// Calls `ConcurrentQueue::bounded`, which makes an empty, open queue of
/// capacity `cap` (its source panics on a zero capacity).
#[verifier::external_body]
pub(crate) fn bounded_queue(cap: usize) -> (queue: ConcurrentQueue<TimerOp>)
    requires
        0 < cap <= 0x10_0000,
    ensures
        queued_ops(queue) == Seq::<TimerOp>::empty(),
        queue_capacity(queue) == Some(cap),
        queue_is_open(queue),
{
    ConcurrentQueue::bounded(cap)
}

/// Calls `ConcurrentQueue::push`. With the queue held exclusively, its source
/// appends the operation when the queue is open and below capacity, and
/// otherwise hands the operation back (`PushError::Full` or `PushError::Closed`)
/// and leaves the queue as it was.
#[verifier::external_body]
pub(crate) fn push_op(queue: &mut ConcurrentQueue<TimerOp>, op: TimerOp) -> (res: Result<(), TimerOp>)
    ensures
        queue_capacity(*final(queue)) == queue_capacity(*old(queue)),
        queue_is_open(*final(queue)) == queue_is_open(*old(queue)),
        (queue_is_open(*old(queue)) && match queue_capacity(*old(queue)) {
            Some(cap) => queued_ops(*old(queue)).len() < cap,
            None => true,
        }) <==> res is Ok,
        match res {
            Ok(()) => queued_ops(*final(queue)) == queued_ops(*old(queue)).push(op),
            Err(back) => back == op && queued_ops(*final(queue)) == queued_ops(*old(queue)),
        },
{
    match queue.push(op) {
        Ok(()) => Ok(()),
        Err(PushError::Full(back)) => Err(back),
        Err(PushError::Closed(back)) => Err(back),
    }
}

/// Calls `ConcurrentQueue::pop`. With the queue held exclusively, its source
/// takes out the oldest operation, or reports an empty queue.
#[verifier::external_body]
pub(crate) fn pop_op(queue: &mut ConcurrentQueue<TimerOp>) -> (res: Option<TimerOp>)
    ensures
        queue_capacity(*final(queue)) == queue_capacity(*old(queue)),
        queue_is_open(*final(queue)) == queue_is_open(*old(queue)),
        queued_ops(*old(queue)).len() > 0 ==> {
            &&& res == Some(queued_ops(*old(queue))[0])
            &&& queued_ops(*final(queue)) == queued_ops(*old(queue)).drop_first()
        },
        queued_ops(*old(queue)).len() == 0 ==> {
            &&& res is None
            &&& queued_ops(*final(queue)) == queued_ops(*old(queue))
        },
{
    queue.pop().ok()
}

/// Calls `ConcurrentQueue::capacity`, the capacity the queue was made with.
#[verifier::external_body]
pub(crate) fn capacity_of(queue: &ConcurrentQueue<TimerOp>) -> (cap: Option<usize>)
    ensures
        cap == queue_capacity(*queue),
{
    queue.capacity()
}

} // verus!
