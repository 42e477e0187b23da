//! What the runtime hands to the ring and what it takes from it.
//!
//! A submission is an operation with the tag (user data) that its completion
//! carries back. A few tags at the top of the `u64` range are reserved for the
//! runtime's own submissions; every other completion becomes an event.

use vstd::prelude::*;

verus! {

/// Tag of the read on the wake-up event descriptor.
pub const NOTIFY_USER_DATA: u64 = 0xffff_ffff_ffff_ffff;

/// Tag of the ring timeout.
pub const TIMEOUT_USER_DATA: u64 = 0xffff_ffff_ffff_fffe;

/// Tag of the removal of the ring timeout.
pub const TIMEOUT_REMOVE_USER_DATA: u64 = 0xffff_ffff_ffff_fffd;

/// Tags from this one up are the runtime's own; their completions are no events.
pub const RESERVED_USER_DATA: u64 = 0xffff_ffff_ffff_ffef;

/// Bytes read from the wake-up event descriptor at a time.
pub const NOTIFY_READ_LEN: u32 = 8;

/// Ticks in a second.
pub const TICKS_PER_SEC: u64 = 1_000_000_000;

/// An operation for the ring. Buffers are given by address and length; the
/// caller keeps them alive until the completion arrives.
#[derive(Clone, Copy, Debug, PartialEq, Eq)]
pub enum Operation {
    Read { fd: i32, buf: usize, len: u32 },
    Write { fd: i32, buf: usize, len: u32 },
    Accept { fd: i32 },
    Timeout { secs: u64, nanos: u32 },
    TimeoutRemove { target: u64 },
}

/// An operation with the tag its completion carries.
#[derive(Clone, Copy, Debug, PartialEq, Eq)]
pub struct Submission {
    pub op: Operation,
    pub user_data: u64,
}

/// A completion taken from the ring: the operation's result and its tag.
#[derive(Clone, Copy, Debug, PartialEq, Eq)]
pub struct Completion {
    pub result: i32,
    pub user_data: u64,
}

/// A completion of a user operation.
#[derive(Clone, Copy, Debug, PartialEq, Eq)]
pub struct Event {
    pub ret: i32,
    pub user_data: u64,
}

/// The events that a sequence of completions gives, in order: one per
/// completion whose tag is not reserved.
pub open spec fn events_of(completions: Seq<Completion>) -> Seq<Event>
    decreases completions.len(),
{
    if completions.len() == 0 {
        Seq::empty()
    } else {
        let before = events_of(completions.drop_last());
        let c = completions.last();
        if c.user_data >= RESERVED_USER_DATA {
            before
        } else {
            before.push(Event { ret: c.result, user_data: c.user_data })
        }
    }
}

/// How many completions of a sequence carry a reserved tag.
pub open spec fn reserved_completions(completions: Seq<Completion>) -> nat
    decreases completions.len(),
{
    if completions.len() == 0 {
        0
    } else {
        reserved_completions(completions.drop_last()) + if completions.last().user_data >= RESERVED_USER_DATA {
            1nat
        } else {
            0nat
        }
    }
}

/// Every user completion gives one event and every event comes from a user
/// completion: events never carry a reserved tag, and the events and the
/// reserved completions together account for every completion.
pub proof fn lemma_events_are_user_completions(completions: Seq<Completion>)
    ensures
        forall|i: int| 0 <= i < events_of(completions).len() ==> #[trigger] events_of(completions)[i].user_data
            < RESERVED_USER_DATA,
        events_of(completions).len() + reserved_completions(completions) == completions.len(),
    decreases completions.len(),
{
    if completions.len() > 0 {
        lemma_events_are_user_completions(completions.drop_last());
    }
}

/// Each completion of the wake-up read, whatever its result, re-arms one read:
/// the count of re-armed reads is the number of completions tagged for it.
pub proof fn lemma_notify_reads_count_tagged_completions(completions: Seq<Completion>)
    ensures
        notify_reads(completions) == completions.filter(|c: Completion| c.user_data == NOTIFY_USER_DATA).len(),
    decreases completions.len(),
{
    reveal(Seq::filter);
    if completions.len() > 0 {
        lemma_notify_reads_count_tagged_completions(completions.drop_last());
    }
}

/// The events of a run of completions are its completions with a tag below
/// the reserved range, in order, each carrying its result and tag.
pub proof fn lemma_events_are_filtered_completions(completions: Seq<Completion>)
    ensures
        events_of(completions) == completions.filter(|c: Completion| c.user_data < RESERVED_USER_DATA).map_values(
            |c: Completion| Event { ret: c.result, user_data: c.user_data },
        ),
    decreases completions.len(),
{
    reveal(Seq::filter);
    if completions.len() > 0 {
        lemma_events_are_filtered_completions(completions.drop_last());
        let f = completions.drop_last().filter(|c: Completion| c.user_data < RESERVED_USER_DATA);
        let c = completions.last();
        assert(f.push(c).map_values(|c: Completion| Event { ret: c.result, user_data: c.user_data })
            =~= f.map_values(|c: Completion| Event { ret: c.result, user_data: c.user_data }).push(
            Event { ret: c.result, user_data: c.user_data },
        ));
    } else {
        assert(events_of(completions) =~= completions.filter(|c: Completion| c.user_data < RESERVED_USER_DATA).map_values(
            |c: Completion| Event { ret: c.result, user_data: c.user_data },
        ));
    }
}

/// How many completions of the wake-up read a sequence holds.
pub open spec fn notify_reads(completions: Seq<Completion>) -> nat
    decreases completions.len(),
{
    if completions.len() == 0 {
        0
    } else {
        notify_reads(completions.drop_last()) + if completions.last().user_data == NOTIFY_USER_DATA {
            1nat
        } else {
            0nat
        }
    }
}

/// The read on the wake-up event descriptor `fd` into the buffer at `buf`.
pub open spec fn notify_read(fd: i32, buf: usize) -> Submission {
    Submission { op: Operation::Read { fd, buf, len: NOTIFY_READ_LEN }, user_data: NOTIFY_USER_DATA }
}

/// Whether a request for a ring timeout arms one: none is armed yet and the
/// timeout is given and not zero.
pub open spec fn arms_timeout(armed: bool, timeout: Option<u64>) -> bool {
    !armed && match timeout {
        Some(t) => t != 0,
        None => false,
    }
}

/// With no ring timeout armed, a request arms one exactly when it gives a
/// timeout that is not zero, however short; a request without a timeout never
/// arms one.
pub proof fn lemma_timeout_arms_when_given_and_not_zero(armed: bool, t: u64)
    ensures
        arms_timeout(false, Some(t)) == (t != 0),
        !arms_timeout(armed, None),
{
}

/// A ring timeout is armed once: while one is armed, no request arms another.
pub proof fn lemma_timeout_arms_once(timeout: Option<u64>)
    ensures
        !arms_timeout(true, timeout),
{
}

/// How many completions the ring is asked to wait for: one when the wait has no
/// bound, none when it has one.
pub fn completions_wanted(timeout: Option<u64>) -> (want: usize)
    ensures
        want == (if timeout is None { 1usize } else { 0usize }),
{
    match timeout {
        None => 1,
        Some(_) => 0,
    }
}

/// The runtime's own state at the ring: the wake-up event descriptor, the
/// buffer its reads land in, and whether a ring timeout is armed.
pub struct Reactor {
    notify_fd: i32,
    notify_buf: usize,
    has_timeout_entry: bool,
}

impl Reactor {
    pub closed spec fn notify_fd(&self) -> i32 {
        self.notify_fd
    }

    pub closed spec fn notify_buf(&self) -> usize {
        self.notify_buf
    }

    pub closed spec fn timeout_armed(&self) -> bool {
        self.has_timeout_entry
    }

    /// The state for a ring whose wake-up event descriptor is `notify_fd`,
    /// read into the 8-byte buffer at `notify_buf`; no timeout is armed.
    pub fn new(notify_fd: i32, notify_buf: usize) -> (r: Reactor)
        ensures
            r.notify_fd() == notify_fd,
            r.notify_buf() == notify_buf,
            !r.timeout_armed(),
    {
        Reactor { notify_fd, notify_buf, has_timeout_entry: false }
    }

    /// The read on the wake-up event descriptor, submitted at start and again
    /// after each of its completions.
    pub fn register_eventfd(&self) -> (s: Submission)
        ensures
            s == notify_read(self.notify_fd(), self.notify_buf()),
    {
        Submission {
            op: Operation::Read { fd: self.notify_fd, buf: self.notify_buf, len: NOTIFY_READ_LEN },
            user_data: NOTIFY_USER_DATA,
        }
    }

    /// The removal of the ring timeout, when one is armed.
    pub fn remove_timeout_entry(&self) -> (s: Option<Submission>)
        ensures
            self.timeout_armed() ==> s == Some(
                Submission { op: Operation::TimeoutRemove { target: TIMEOUT_USER_DATA }, user_data: TIMEOUT_REMOVE_USER_DATA },
            ),
            !self.timeout_armed() ==> s is None,
    {
        if !self.has_timeout_entry {
            return None;
        }
        Some(
            Submission {
                op: Operation::TimeoutRemove { target: TIMEOUT_USER_DATA },
                user_data: TIMEOUT_REMOVE_USER_DATA,
            },
        )
    }

    /// Arms a ring timeout of `timeout` ticks, unless one is armed already or
    /// there is no timeout or a zero one.
    pub fn register_timeout_entry(&mut self, timeout: Option<u64>) -> (s: Option<Submission>)
        ensures
            final(self).notify_fd() == old(self).notify_fd(),
            final(self).notify_buf() == old(self).notify_buf(),
            arms_timeout(old(self).timeout_armed(), timeout) ==> {
                &&& s == Some(
                    Submission {
                        op: Operation::Timeout {
                            secs: (timeout->0 / TICKS_PER_SEC) as u64,
                            nanos: (timeout->0 % TICKS_PER_SEC) as u32,
                        },
                        user_data: TIMEOUT_USER_DATA,
                    },
                )
                &&& final(self).timeout_armed()
            },
            (!old(self).timeout_armed() && timeout is Some && timeout->0 != 0) ==> (s is Some
                && final(self).timeout_armed()),
            (timeout is None || timeout == Some(0u64)) ==> s is None,
            !arms_timeout(old(self).timeout_armed(), timeout) ==> {
                &&& s is None
                &&& final(self).timeout_armed() == old(self).timeout_armed()
            },
    {
        if self.has_timeout_entry {
            return None;
        }
        match timeout {
            Some(t) => {
                if t == 0 {
                    return None;
                }
                let secs = t / TICKS_PER_SEC;
                let nanos = (t % TICKS_PER_SEC) as u32;
                self.has_timeout_entry = true;
                Some(Submission { op: Operation::Timeout { secs, nanos }, user_data: TIMEOUT_USER_DATA })
            },
            None => None,
        }
    }

    /// Sorts the completions taken from the ring: clears `events` and fills it
    /// with one event per user completion, in order, and returns the wake-up
    /// reads to submit again, one per completion of that read.
    pub fn collect_events(&self, completions: &Vec<Completion>, events: &mut Vec<Event>) -> (rearm: Vec<Submission>)
        ensures
            final(events)@ == events_of(completions@),
            rearm@.len() == notify_reads(completions@),
            forall|i: int| 0 <= i < rearm@.len() ==> #[trigger] rearm@[i] == notify_read(self.notify_fd(), self.notify_buf()),
            rearm@.len() == completions@.filter(|c: Completion| c.user_data == NOTIFY_USER_DATA).len(),
            final(events)@ == completions@.filter(|c: Completion| c.user_data < RESERVED_USER_DATA).map_values(
                |c: Completion| Event { ret: c.result, user_data: c.user_data },
            ),
    {
        events.clear();
        let mut rearm: Vec<Submission> = Vec::new();
        let mut i: usize = 0;
        while i < completions.len()
            invariant
                i <= completions@.len(),
                events@ == events_of(completions@.take(i as int)),
                rearm@.len() == notify_reads(completions@.take(i as int)),
                forall|j: int| 0 <= j < rearm@.len() ==> #[trigger] rearm@[j] == notify_read(self.notify_fd(), self.notify_buf()),
            decreases completions.len() - i,
        {
            let ghost seen = completions@.take(i as int);
            assert(completions@.take(i + 1).drop_last() =~= seen);
            let user_data = completions[i].user_data;
            let result = completions[i].result;
            if user_data == NOTIFY_USER_DATA {
                rearm.push(self.register_eventfd());
            } else if user_data < RESERVED_USER_DATA {
                events.push(Event { ret: result, user_data });
            }
            i = i + 1;
        }
        assert(completions@.take(completions@.len() as int) =~= completions@);
        proof {
            lemma_notify_reads_count_tagged_completions(completions@);
            lemma_events_are_filtered_completions(completions@);
        }
        rearm
    }
}

/// What the batch submission does with the next entry.
#[derive(Debug, PartialEq, Eq)]
pub enum BatchAction {
    /// Push the entry on the submission queue.
    Push,
    /// The queue has no free slot: sync and submit the queue; the entry is not pushed.
    SubmitAndSkip,
}

/// The state of a batch submission: the free slots left on the submission
/// queue and whether entries were pushed since the last submit.
pub struct BatchSubmit {
    free: usize,
    has_entry: bool,
}

impl BatchSubmit {
    pub closed spec fn free_slots(&self) -> usize {
        self.free
    }

    pub closed spec fn has_unsubmitted(&self) -> bool {
        self.has_entry
    }

    /// Starts a batch on a queue of `capacity` slots holding `len` entries.
    pub fn new(capacity: usize, len: usize) -> (b: BatchSubmit)
        requires
            len <= capacity,
        ensures
            b.free_slots() == capacity - len,
            !b.has_unsubmitted(),
    {
        BatchSubmit { free: capacity - len, has_entry: false }
    }

    /// Decides what happens to the next entry: it is pushed while a slot is
    /// free; otherwise the queue is submitted instead.
    pub fn next_entry(&mut self) -> (action: BatchAction)
        ensures
            old(self).free_slots() != 0 ==> {
                &&& action == BatchAction::Push
                &&& final(self).free_slots() == old(self).free_slots() - 1
                &&& final(self).has_unsubmitted()
            },
            old(self).free_slots() == 0 ==> {
                &&& action == BatchAction::SubmitAndSkip
                &&& final(self).free_slots() == 0
                &&& !final(self).has_unsubmitted()
            },
    {
        if self.free != 0 {
            self.free = self.free - 1;
            self.has_entry = true;
            BatchAction::Push
        } else {
            self.has_entry = false;
            BatchAction::SubmitAndSkip
        }
    }

    /// Records the free slots after a submit: `capacity` slots holding `len` entries.
    pub fn refill(&mut self, capacity: usize, len: usize)
        requires
            len <= capacity,
        ensures
            final(self).free_slots() == capacity - len,
            final(self).has_unsubmitted() == old(self).has_unsubmitted(),
    {
        self.free = capacity - len;
    }

    /// Takes the outcome of a submit made on `SubmitAndSkip`: a successful
    /// submit lets the batch go on with the free slots of a queue of `capacity`
    /// slots holding `len` entries; a busy kernel or a failure ends the batch
    /// with the error.
    pub fn submitted(&mut self, outcome: SubmitOutcome, capacity: usize, len: usize) -> (go_on: bool)
        requires
            len <= capacity,
        ensures
            go_on == (outcome == SubmitOutcome::Submitted),
            go_on ==> final(self).free_slots() == capacity - len,
            !go_on ==> final(self).free_slots() == old(self).free_slots(),
            final(self).has_unsubmitted() == old(self).has_unsubmitted(),
    {
        match outcome {
            SubmitOutcome::Submitted => {
                self.free = capacity - len;
                true
            },
            SubmitOutcome::Busy => false,
            SubmitOutcome::Failed => false,
        }
    }

    /// Whether entries pushed since the last submit still have to be submitted.
    pub fn needs_final_submit(&self) -> (owed: bool)
        ensures
            owed == self.has_unsubmitted(),
    {
        self.has_entry
    }
}

/// How a submit call on the ring ended.
#[derive(Debug, PartialEq, Eq)]
pub enum SubmitOutcome {
    Submitted,
    /// The kernel was busy (`EBUSY`).
    Busy,
    Failed,
}

/// The next step in draining the backlog of submissions.
#[derive(Debug, PartialEq, Eq)]
pub enum DrainAction {
    /// Submit the full queue first.
    Submit,
    /// Push the next backlog entry.
    PushNext,
    /// Stop draining.
    Finish,
    /// Stop and report the submit error.
    Fail,
}

/// The step before the next backlog entry: a full queue is submitted first;
/// otherwise the next entry is pushed, or the drain ends when none is left.
pub fn backlog_step(queue_full: bool, has_next: bool) -> (action: DrainAction)
    ensures
        action == (if queue_full {
            DrainAction::Submit
        } else if has_next {
            DrainAction::PushNext
        } else {
            DrainAction::Finish
        }),
{
    if queue_full {
        DrainAction::Submit
    } else if has_next {
        DrainAction::PushNext
    } else {
        DrainAction::Finish
    }
}

/// The step after submitting a full queue: a busy kernel ends the drain, an
/// error fails it, and otherwise the next entry is pushed, if any.
pub fn backlog_after_submit(outcome: SubmitOutcome, has_next: bool) -> (action: DrainAction)
    ensures
        action == (match outcome {
            SubmitOutcome::Submitted => if has_next {
                DrainAction::PushNext
            } else {
                DrainAction::Finish
            },
            SubmitOutcome::Busy => DrainAction::Finish,
            SubmitOutcome::Failed => DrainAction::Fail,
        }),
{
    match outcome {
        SubmitOutcome::Submitted => if has_next {
            DrainAction::PushNext
        } else {
            DrainAction::Finish
        },
        SubmitOutcome::Busy => DrainAction::Finish,
        SubmitOutcome::Failed => DrainAction::Fail,
    }
}

} // verus!
