use std::sync::atomic::{AtomicUsize, Ordering};
use std::sync::Arc;
use std::task::{Wake, Waker};

use whirl::blocking::{block_on_step, BlockOnStep};
use whirl::io::{accepted, transferred, Async, Timer, WaitComplele};
use whirl::proactor::{Proactor, TimerIds};
use whirl::reactor::{Operation, Submission};

struct Counter(AtomicUsize);

impl Wake for Counter {
    fn wake(self: Arc<Self>) {
        self.0.fetch_add(1, Ordering::SeqCst);
    }
}

fn counting_waker() -> (Arc<Counter>, Waker) {
    let counter = Arc::new(Counter(AtomicUsize::new(0)));
    let waker = Waker::from(counter.clone());
    (counter, waker)
}

#[test]
fn operation_is_submitted_once_then_completes() {
    let mut op = WaitComplele::read(4, 0x2000, 16);
    let mut buffer = Vec::new();
    assert_eq!(op.poll(77, &mut buffer), None);
    assert_eq!(
        buffer,
        vec![Submission { op: Operation::Read { fd: 4, buf: 0x2000, len: 16 }, user_data: 77 }]
    );
    assert_eq!(op.poll(78, &mut buffer), None);
    assert_eq!(buffer.len(), 1);
    op.complete(12);
    assert_eq!(op.poll(79, &mut buffer), Some(12));
    assert_eq!(op.poll(80, &mut buffer), Some(12));
    assert_eq!(buffer.len(), 1);
}

#[test]
fn request_builders() {
    let mut buffer = Vec::new();
    let mut w = WaitComplele::write(5, 0x10, (1usize << 32) + 3);
    w.poll(1, &mut buffer);
    let mut a = WaitComplele::accept(6);
    a.poll(2, &mut buffer);
    let mut n = WaitComplele::new(Operation::TimeoutRemove { target: 9 });
    n.poll(3, &mut buffer);
    assert_eq!(
        buffer,
        vec![
            Submission { op: Operation::Write { fd: 5, buf: 0x10, len: 3 }, user_data: 1 },
            Submission { op: Operation::Accept { fd: 6 }, user_data: 2 },
            Submission { op: Operation::TimeoutRemove { target: 9 }, user_data: 3 },
        ]
    );
}

#[test]
fn results_of_transfers() {
    assert_eq!(accepted(0), 0);
    assert_eq!(accepted(42), 42);
    assert_eq!(transferred(17), 17);
    assert_eq!(transferred(-1), usize::MAX);
}

#[test]
fn async_handle_wraps_and_unwraps() {
    let mut a = Async::new(vec![1u8, 2]).unwrap();
    assert_eq!(a.get_ref(), &vec![1u8, 2]);
    a.get_mut().push(3);
    assert_eq!(a.get_ref().len(), 3);
    assert_eq!(a.into_inner().unwrap(), vec![1u8, 2, 3]);
}

#[test]
fn timer_basics() {
    let t = Timer::new(500);
    assert_eq!(t.deadline(), 500);
    assert!(!t.is_elapsed(500));
    assert!(t.is_elapsed(501));
    assert!(!t.is_elapsed(10));
}

#[test]
fn timer_registers_then_fires() {
    let mut p = Proactor::new();
    let mut ids = TimerIds::new();
    let (c, w) = counting_waker();
    let mut t = Timer::new(100);
    assert_eq!(t.poll(10, &w, &mut p, &mut ids), None);
    // Polling again with the same task does not register again.
    assert_eq!(t.poll(20, &w, &mut p, &mut ids), None);
    let mut wakers = Vec::new();
    assert_eq!(p.process_timers(50, &mut wakers), Some(50));
    assert_eq!(p.process_timers(150, &mut wakers), Some(0));
    assert_eq!(wakers.len(), 1);
    for w in wakers {
        w.wake();
    }
    assert_eq!(c.0.load(Ordering::SeqCst), 1);
    assert_eq!(t.poll(150, &w, &mut p, &mut ids), Some(100));
}

#[test]
fn timer_follows_a_new_task() {
    let mut p = Proactor::new();
    let mut ids = TimerIds::new();
    let (first, w1) = counting_waker();
    let (second, w2) = counting_waker();
    let mut t = Timer::new(100);
    assert_eq!(t.poll(10, &w1, &mut p, &mut ids), None);
    assert_eq!(t.poll(10, &w2, &mut p, &mut ids), None);
    let mut wakers = Vec::new();
    p.process_timers(200, &mut wakers);
    assert_eq!(wakers.len(), 1);
    for w in wakers {
        w.wake();
    }
    assert_eq!(first.0.load(Ordering::SeqCst), 0);
    assert_eq!(second.0.load(Ordering::SeqCst), 1);
}

#[test]
fn timer_reset_moves_the_registration() {
    let mut p = Proactor::new();
    let mut ids = TimerIds::new();
    let (c, w) = counting_waker();
    let mut t = Timer::new(100);
    t.poll(10, &w, &mut p, &mut ids);
    t.reset(300, &mut p, &mut ids);
    assert_eq!(t.deadline(), 300);
    let mut wakers = Vec::new();
    assert_eq!(p.process_timers(200, &mut wakers), Some(100));
    assert!(wakers.is_empty());
    assert_eq!(p.process_timers(301, &mut wakers), Some(0));
    assert_eq!(wakers.len(), 1);
    for w in wakers {
        w.wake();
    }
    assert_eq!(c.0.load(Ordering::SeqCst), 1);
}

#[test]
fn unregistered_timer_reset_only_moves_the_deadline() {
    let mut p = Proactor::new();
    let mut ids = TimerIds::new();
    let mut t = Timer::new(100);
    t.reset(40, &mut p, &mut ids);
    assert_eq!(t.deadline(), 40);
    let mut wakers = Vec::new();
    assert_eq!(p.process_timers(1000, &mut wakers), None);
}

#[test]
fn cancelled_timer_does_not_fire() {
    let mut p = Proactor::new();
    let mut ids = TimerIds::new();
    let (c, w) = counting_waker();
    let mut t = Timer::new(100);
    t.poll(10, &w, &mut p, &mut ids);
    t.cancel(&mut p);
    let mut wakers = Vec::new();
    assert_eq!(p.process_timers(1000, &mut wakers), None);
    assert_eq!(c.0.load(Ordering::SeqCst), 0);
    // Cancelling twice is harmless.
    t.cancel(&mut p);
    assert_eq!(p.process_timers(1000, &mut wakers), None);
}

#[test]
fn block_on_step_drains_the_buffer() {
    let mut buffer = vec![Submission { op: Operation::Accept { fd: 1 }, user_data: 5 }];
    match block_on_step::<u32>(None, &mut buffer) {
        BlockOnStep::SubmitAndWait(batch) => {
            assert_eq!(batch, vec![Submission { op: Operation::Accept { fd: 1 }, user_data: 5 }]);
        }
        BlockOnStep::Finish(_) => panic!("a pending future does not finish"),
    }
    assert!(buffer.is_empty());
    buffer.push(Submission { op: Operation::Accept { fd: 2 }, user_data: 6 });
    match block_on_step(Some(9u32), &mut buffer) {
        BlockOnStep::Finish(out) => assert_eq!(out, 9),
        BlockOnStep::SubmitAndWait(_) => panic!("a ready future finishes"),
    }
    assert_eq!(buffer.len(), 1);
}

#[test]
fn decided_poll_same_task_keeps_registration() {
    let mut p = Proactor::new();
    let mut ids = TimerIds::new();
    let (c, w) = counting_waker();
    let mut t = Timer::new(100);
    assert_eq!(t.poll_decided(10, &w, true, &mut p, &mut ids), None);
    // Registered now; the same task polls again: nothing new is registered.
    assert_eq!(t.poll_decided(20, &w, true, &mut p, &mut ids), None);
    assert_eq!(ids.fresh(), 2);
    let mut wakers = Vec::new();
    assert_eq!(p.process_timers(200, &mut wakers), Some(0));
    assert_eq!(wakers.len(), 1);
    for w in wakers {
        w.wake();
    }
    assert_eq!(c.0.load(Ordering::SeqCst), 1);
}

#[test]
fn decided_poll_new_task_replaces_registration() {
    let mut p = Proactor::new();
    let mut ids = TimerIds::new();
    let (first, w1) = counting_waker();
    let (second, w2) = counting_waker();
    let mut t = Timer::new(100);
    assert_eq!(t.poll_decided(10, &w1, false, &mut p, &mut ids), None);
    assert_eq!(t.poll_decided(20, &w2, false, &mut p, &mut ids), None);
    assert_eq!(ids.fresh(), 3);
    let mut wakers = Vec::new();
    assert_eq!(p.process_timers(200, &mut wakers), Some(0));
    assert_eq!(wakers.len(), 1);
    for w in wakers {
        w.wake();
    }
    assert_eq!(first.0.load(Ordering::SeqCst), 0);
    assert_eq!(second.0.load(Ordering::SeqCst), 1);
    // Past the deadline the timer is ready.
    assert_eq!(t.poll_decided(200, &w2, true, &mut p, &mut ids), Some(100));
}
