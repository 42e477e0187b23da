//! Pending ring operations, I/O handles and timers, as seen by a polling task.

use std::task::Waker;
use vstd::prelude::*;

use crate::proactor::{next_timer_id, Proactor, TimerIds};
use crate::reactor::{Operation, Submission};
use crate::waker::{clone_waker, wakes_same_task};

verus! {

/// `std::io::Error`, the error type of the I/O handle's results.
#[verifier::external_type_specification]
#[verifier::external_body]
pub struct ExIoError(std::io::Error);

/// An operation submitted once and then waited on until its result arrives.
pub struct WaitComplele {
    ret: Option<i32>,
    op: Operation,
    first: bool,
    user_data: u64,
}

impl WaitComplele {
    /// The result, once the completion has been delivered.
    pub closed spec fn result(&self) -> Option<i32> {
        self.ret
    }

    pub closed spec fn operation(&self) -> Operation {
        self.op
    }

    /// Whether the operation has not been submitted yet.
    pub closed spec fn unsubmitted(&self) -> bool {
        self.first
    }

    /// The tag the operation was submitted with.
    pub closed spec fn token(&self) -> u64 {
        self.user_data
    }

    /// An operation not yet submitted.
    pub fn new(op: Operation) -> (w: WaitComplele)
        ensures
            w.result() is None,
            w.operation() == op,
            w.unsubmitted(),
            w.token() == 0,
    {
        WaitComplele { ret: None, op, first: true, user_data: 0 }
    }

    /// A read of up to `len` bytes from `fd` into the buffer at `buf`; the
    /// ring takes a 32-bit length, so `len` is cut to its low 32 bits.
    pub fn read(fd: i32, buf: usize, len: usize) -> (w: WaitComplele)
        ensures
            w.result() is None,
            w.operation() == (Operation::Read { fd, buf, len: len as u32 }),
            w.unsubmitted(),
            w.token() == 0,
    {
        WaitComplele::new(Operation::Read { fd, buf, len: len as u32 })
    }

    /// A write of up to `len` bytes from the buffer at `buf` to `fd`; `len` is
    /// cut to its low 32 bits.
    pub fn write(fd: i32, buf: usize, len: usize) -> (w: WaitComplele)
        ensures
            w.result() is None,
            w.operation() == (Operation::Write { fd, buf, len: len as u32 }),
            w.unsubmitted(),
            w.token() == 0,
    {
        WaitComplele::new(Operation::Write { fd, buf, len: len as u32 })
    }

    /// An accept on the listening socket `fd`, with no peer address asked for.
    pub fn accept(fd: i32) -> (w: WaitComplele)
        ensures
            w.result() is None,
            w.operation() == (Operation::Accept { fd }),
            w.unsubmitted(),
            w.token() == 0,
    {
        WaitComplele::new(Operation::Accept { fd })
    }

    /// Polls the operation. The first poll submits it, tagged with `token`,
    /// by appending it to `buffer`, and is pending. Later polls give the result
    /// once it has been delivered.
    pub fn poll(&mut self, token: u64, buffer: &mut Vec<Submission>) -> (r: Option<i32>)
        ensures
            final(self).operation() == old(self).operation(),
            final(self).result() == old(self).result(),
            !final(self).unsubmitted(),
            old(self).unsubmitted() ==> {
                &&& r is None
                &&& final(self).token() == token
                &&& final(buffer)@ == old(buffer)@.push(Submission { op: old(self).operation(), user_data: token })
            },
            !old(self).unsubmitted() ==> {
                &&& r == old(self).result()
                &&& final(self).token() == old(self).token()
                &&& final(buffer)@ == old(buffer)@
            },
    {
        if self.first {
            self.user_data = token;
            buffer.push(Submission { op: self.op, user_data: token });
            self.first = false;
            return None;
        }
        self.ret
    }

    /// Delivers the result of the operation.
    pub fn complete(&mut self, ret: i32)
        ensures
            final(self).result() == Some(ret),
            final(self).operation() == old(self).operation(),
            final(self).unsubmitted() == old(self).unsubmitted(),
            final(self).token() == old(self).token(),
    {
        self.ret = Some(ret);
    }
}

/// What an accept gives from its result: the new connection's descriptor.
/// A negative result is an error, which is not handled.
pub fn accepted(ret: i32) -> (fd: usize)
    requires
        ret >= 0,
    ensures
        fd == ret,
{
    ret as usize
}

/// What a read or write gives from its result: the result taken as a byte
/// count (a negative error code wraps around).
pub fn transferred(ret: i32) -> (n: usize)
    ensures
        n == ret as usize,
{
    ret as usize
}

/// An I/O handle that the runtime drives through the ring.
#[derive(Debug)]
pub struct Async<T> {
    io: T,
}

impl<T> Async<T> {
    /// The handle inside.
    pub closed spec fn inner(&self) -> T {
        self.io
    }

    /// Wraps a handle.
    pub fn new(io: T) -> (r: Result<Async<T>, std::io::Error>)
        ensures
            r matches Ok(a) && a.inner() == io,
    {
        Ok(Async { io })
    }

    /// The handle inside.
    pub fn get_ref(&self) -> (r: &T)
        ensures
            *r == self.inner(),
    {
        &self.io
    }

    /// The handle inside, for changing.
    pub fn get_mut(&mut self) -> (r: &mut T)
        ensures
            *r == old(self).inner(),
            final(self).inner() == *final(r),
    {
        &mut self.io
    }

    /// Unwraps the handle.
    pub fn into_inner(self) -> (r: Result<T, std::io::Error>)
        ensures
            r matches Ok(io) && io == self.inner(),
    {
        Ok(self.io)
    }
}

/// A timer that fires at a deadline (in ticks).
pub struct Timer {
    deadline: u64,
    key: usize,
    waker: Option<Waker>,
}

impl Timer {
    pub closed spec fn deadline_at(&self) -> u64 {
        self.deadline
    }

    /// The id under which the timer was last registered (zero: never).
    pub closed spec fn timer_id(&self) -> usize {
        self.key
    }

    /// Whether the timer holds a waker, and so is registered with the proactor.
    pub closed spec fn is_registered(&self) -> bool {
        self.waker is Some
    }

    /// The waker the timer holds: the one its registration wakes.
    pub closed spec fn held_waker(&self) -> Option<Waker> {
        self.waker
    }

    /// A timer for `deadline`, not registered.
    pub fn new(deadline: u64) -> (t: Timer)
        ensures
            t.deadline_at() == deadline,
            t.timer_id() == 0,
            !t.is_registered(),
    {
        Timer { deadline, key: 0, waker: None }
    }

    pub fn deadline(&self) -> (d: u64)
        ensures
            d == self.deadline_at(),
    {
        self.deadline
    }

    /// Whether the deadline lies before `now`.
    pub fn is_elapsed(&self, now: u64) -> (elapsed: bool)
        ensures
            elapsed == (self.deadline_at() < now),
    {
        self.deadline < now
    }

    /// Moves the deadline to `when`. A registered timer is cancelled and
    /// registered again under a fresh id from `ids` at the new deadline.
    pub fn reset(&mut self, when: u64, proactor: &mut Proactor, ids: &mut TimerIds)
        requires
            old(proactor).wf(),
        ensures
            final(proactor).wf(),
            final(self).deadline_at() == when,
            final(self).is_registered() == old(self).is_registered(),
            final(self).held_waker() == old(self).held_waker(),
            old(self).is_registered() ==> {
                &&& final(self).timer_id() == old(ids).next_id()
                &&& final(ids).next_id() == next_timer_id(old(ids).next_id())
                &&& old(ids).unexhausted() ==> old(ids).is_fresh(final(self).timer_id())
                &&& exists|w: Waker|
                    final(proactor).scheduled() == old(proactor).scheduled().remove(
                        (old(self).deadline_at(), old(self).timer_id()),
                    ).insert((when, final(self).timer_id()), w) && cloned::<Waker>(old(self).held_waker()->0, w)
                &&& final(proactor).is_notified()
            },
            !old(self).is_registered() ==> {
                &&& final(self).timer_id() == old(self).timer_id()
                &&& *final(proactor) == *old(proactor)
                &&& *final(ids) == *old(ids)
            },
    {
        match &self.waker {
            Some(waker) => {
                proactor.remove_timer(self.deadline, self.key);
                let ghost mid = proactor.scheduled();
                self.key = proactor.insert_timer(when, waker, ids);
                proof {
                    let w = proactor.pending_ops().last()->Insert_2;
                    assert(proactor.scheduled() == mid.insert((when, self.key), w));
                    assert(proactor.scheduled() == old(proactor).scheduled().remove(
                        (old(self).deadline_at(), old(self).timer_id()),
                    ).insert((when, self.key), w));
                }
            },
            None => {},
        }
        self.deadline = when;
    }

    /// Polls the timer at time `now` for the task woken by `waker`, where
    /// `same_task` says whether the waker the timer holds would wake that task
    /// (it is not read when the timer holds none).
    /// At or past the deadline the timer is ready, and a registration is
    /// cancelled. Before it, an unregistered timer registers the task's waker
    /// under a fresh id; a registered one stays as it is for the same task, and
    /// for another task is cancelled and registered again under a fresh id.
    pub fn poll_decided(
        &mut self,
        now: u64,
        waker: &Waker,
        same_task: bool,
        proactor: &mut Proactor,
        ids: &mut TimerIds,
    ) -> (r: Option<u64>)
        requires
            old(proactor).wf(),
        ensures
            final(proactor).wf(),
            final(self).deadline_at() == old(self).deadline_at(),
            old(self).deadline_at() <= now ==> {
                &&& r == Some(old(self).deadline_at())
                &&& final(self).timer_id() == old(self).timer_id()
                &&& final(self).is_registered() == old(self).is_registered()
                &&& final(self).held_waker() == old(self).held_waker()
                &&& *final(ids) == *old(ids)
                &&& old(self).timer_id() > 0 ==> final(proactor).scheduled() == old(proactor).scheduled().remove(
                    (old(self).deadline_at(), old(self).timer_id()),
                )
                &&& old(self).timer_id() == 0 ==> *final(proactor) == *old(proactor)
            },
            old(self).deadline_at() > now ==> {
                &&& r is None
                &&& final(self).is_registered()
                &&& (old(self).is_registered() && same_task) ==> {
                    &&& *final(proactor) == *old(proactor)
                    &&& *final(ids) == *old(ids)
                    &&& final(self).timer_id() == old(self).timer_id()
                }
                &&& !(old(self).is_registered() && same_task) ==> {
                    &&& final(self).timer_id() == old(ids).next_id()
                    &&& final(ids).next_id() == next_timer_id(old(ids).next_id())
                    &&& old(ids).unexhausted() ==> old(ids).is_fresh(final(self).timer_id())
                    &&& final(proactor).is_notified()
                }
                &&& !old(self).is_registered() ==> exists|w: Waker|
                    final(proactor).scheduled() == old(proactor).scheduled().insert(
                        (old(self).deadline_at(), final(self).timer_id()),
                        w,
                    ) && cloned::<Waker>(*waker, w)
                &&& (old(self).is_registered() && !same_task) ==> exists|w: Waker|
                    final(proactor).scheduled() == old(proactor).scheduled().remove(
                        (old(self).deadline_at(), old(self).timer_id()),
                    ).insert((old(self).deadline_at(), final(self).timer_id()), w) && cloned::<Waker>(*waker, w)
                &&& (old(self).is_registered() && same_task) ==> final(self).held_waker() == old(self).held_waker()
                &&& !(old(self).is_registered() && same_task) ==> (final(self).held_waker() matches Some(h)
                    && cloned::<Waker>(*waker, h))
            },
    {
        if self.deadline <= now {
            if self.key > 0 {
                proactor.remove_timer(self.deadline, self.key);
            }
            Some(self.deadline)
        } else {
            let registered = self.waker.is_some();
            if !(registered && same_task) {
                if registered {
                    proactor.remove_timer(self.deadline, self.key);
                }
                let ghost mid = proactor.scheduled();
                self.key = proactor.insert_timer(self.deadline, waker, ids);
                proof {
                    let w = proactor.pending_ops().last()->Insert_2;
                    assert(proactor.scheduled() == mid.insert((self.deadline, self.key), w));
                }
                self.waker = Some(clone_waker(waker));
            }
            None
        }
    }

    /// Polls the timer at time `now` for the task woken by `waker`: asks
    /// whether the waker the timer holds would wake that task, and polls with
    /// the answer (see `poll_decided`). At or past the deadline the timer is
    /// ready and its registration cancelled; before it the timer is registered
    /// under a fresh id, or, when it already was, either stays as it is (same
    /// task) or is registered again under a fresh id (another task).
    pub fn poll(&mut self, now: u64, waker: &Waker, proactor: &mut Proactor, ids: &mut TimerIds) -> (r: Option<u64>)
        requires
            old(proactor).wf(),
        ensures
            final(proactor).wf(),
            final(self).deadline_at() == old(self).deadline_at(),
            r == (if old(self).deadline_at() <= now { Some(old(self).deadline_at()) } else { None }),
            old(self).deadline_at() <= now ==> {
                &&& final(self).timer_id() == old(self).timer_id()
                &&& final(self).is_registered() == old(self).is_registered()
                &&& final(self).held_waker() == old(self).held_waker()
                &&& *final(ids) == *old(ids)
                &&& old(self).timer_id() > 0 ==> final(proactor).scheduled() == old(proactor).scheduled().remove(
                    (old(self).deadline_at(), old(self).timer_id()),
                )
                &&& old(self).timer_id() == 0 ==> *final(proactor) == *old(proactor)
            },
            old(self).deadline_at() > now ==> {
                &&& final(self).is_registered()
                &&& !old(self).is_registered() ==> {
                    &&& final(self).timer_id() == old(ids).next_id()
                    &&& final(ids).next_id() == next_timer_id(old(ids).next_id())
                    &&& old(ids).unexhausted() ==> old(ids).is_fresh(final(self).timer_id())
                    &&& final(proactor).is_notified()
                    &&& exists|w: Waker|
                        final(proactor).scheduled() == old(proactor).scheduled().insert(
                            (old(self).deadline_at(), final(self).timer_id()),
                            w,
                        ) && cloned::<Waker>(*waker, w)
                    &&& (final(self).held_waker() matches Some(h) && cloned::<Waker>(*waker, h))
                }
                &&& old(self).is_registered() ==> {
                    ||| {
                        &&& *final(proactor) == *old(proactor)
                        &&& *final(ids) == *old(ids)
                        &&& final(self).timer_id() == old(self).timer_id()
                        &&& final(self).held_waker() == old(self).held_waker()
                    }
                    ||| {
                        &&& final(self).timer_id() == old(ids).next_id()
                        &&& final(ids).next_id() == next_timer_id(old(ids).next_id())
                        &&& old(ids).unexhausted() ==> old(ids).is_fresh(final(self).timer_id())
                        &&& final(proactor).is_notified()
                        &&& exists|w: Waker|
                            final(proactor).scheduled() == old(proactor).scheduled().remove(
                                (old(self).deadline_at(), old(self).timer_id()),
                            ).insert((old(self).deadline_at(), final(self).timer_id()), w) && cloned::<Waker>(*waker, w)
                        &&& (final(self).held_waker() matches Some(h) && cloned::<Waker>(*waker, h))
                    }
                }
            },
    {
        let same_task = match &self.waker {
            Some(current) => wakes_same_task(current, waker),
            None => false,
        };
        self.poll_decided(now, waker, same_task, proactor, ids)
    }

    /// Cancels the timer's registration, if it has one, and drops its waker.
    pub fn cancel(&mut self, proactor: &mut Proactor)
        requires
            old(proactor).wf(),
        ensures
            final(proactor).wf(),
            !final(self).is_registered(),
            final(self).deadline_at() == old(self).deadline_at(),
            final(self).timer_id() == old(self).timer_id(),
            old(self).is_registered() ==> final(proactor).scheduled() == old(proactor).scheduled().remove(
                (old(self).deadline_at(), old(self).timer_id()),
            ),
            !old(self).is_registered() ==> *final(proactor) == *old(proactor),
    {
        if self.waker.take().is_some() {
            proactor.remove_timer(self.deadline, self.key);
        }
    }
}

} // verus!
