use std::sync::atomic::{AtomicUsize, Ordering};
use std::sync::Arc;
use std::task::{Wake, Waker};

use whirl::proactor::{earlier_of, Proactor, SelectOutcome, TimerIds, TIMER_OP_CAPACITY};

struct Counter(AtomicUsize);

impl Wake for Counter {
    fn wake(self: Arc<Self>) {
        self.0.fetch_add(1, Ordering::SeqCst);
    }
}

fn counting_waker() -> (Arc<Counter>, Waker) {
    let counter = Arc::new(Counter(AtomicUsize::new(0)));
    let waker = Waker::from(counter.clone());
    (counter, waker)
}

fn wake_all(wakers: Vec<Waker>) {
    for w in wakers {
        w.wake();
    }
}

#[test]
fn ids_start_at_one_and_advance() {
    let mut p = Proactor::new();
    let mut ids = TimerIds::new();
    let (_c, w) = counting_waker();
    assert_eq!(p.insert_timer(10, &w, &mut ids), 1);
    assert_eq!(p.insert_timer(10, &w, &mut ids), 2);
    assert_eq!(p.insert_timer(5, &w, &mut ids), 3);
}

#[test]
fn due_timers_fire_and_others_bound_the_sleep() {
    let mut p = Proactor::new();
    let mut ids = TimerIds::new();
    let (early, we) = counting_waker();
    let (late, wl) = counting_waker();
    p.insert_timer(100, &we, &mut ids);
    p.insert_timer(250, &wl, &mut ids);
    let mut wakers = Vec::new();
    // Nothing is due at 50: the sleep lasts until the earliest deadline.
    assert_eq!(p.process_timers(50, &mut wakers), Some(50));
    assert!(wakers.is_empty());
    // At 101 the first timer fires.
    assert_eq!(p.process_timers(101, &mut wakers), Some(0));
    assert_eq!(wakers.len(), 1);
    wake_all(std::mem::take(&mut wakers));
    assert_eq!(early.0.load(Ordering::SeqCst), 1);
    assert_eq!(late.0.load(Ordering::SeqCst), 0);
    // It does not fire again; the other one bounds the sleep.
    assert_eq!(p.process_timers(101, &mut wakers), Some(149));
    assert!(wakers.is_empty());
    // A deadline equal to now is not yet due.
    assert_eq!(p.process_timers(250, &mut wakers), Some(0));
    assert!(wakers.is_empty());
    assert_eq!(p.process_timers(251, &mut wakers), Some(0));
    wake_all(std::mem::take(&mut wakers));
    assert_eq!(late.0.load(Ordering::SeqCst), 1);
    // No timer left: no bound.
    assert_eq!(p.process_timers(1000, &mut wakers), None);
}

#[test]
fn timers_fire_in_key_order() {
    let mut p = Proactor::new();
    let mut ids = TimerIds::new();
    let (a, wa) = counting_waker();
    let (b, wb) = counting_waker();
    p.insert_timer(30, &wb, &mut ids);
    p.insert_timer(20, &wa, &mut ids);
    let mut wakers = Vec::new();
    assert_eq!(p.process_timers(40, &mut wakers), Some(0));
    assert_eq!(wakers.len(), 2);
    // The earlier deadline (registered second) comes first.
    let first = wakers.remove(0);
    first.wake();
    assert_eq!(a.0.load(Ordering::SeqCst), 1);
    assert_eq!(b.0.load(Ordering::SeqCst), 0);
}

#[test]
fn removed_timer_never_fires() {
    let mut p = Proactor::new();
    let mut ids = TimerIds::new();
    let (c, w) = counting_waker();
    let id = p.insert_timer(10, &w, &mut ids);
    p.remove_timer(10, id);
    let mut wakers = Vec::new();
    assert_eq!(p.process_timers(1000, &mut wakers), None);
    assert!(wakers.is_empty());
    assert_eq!(c.0.load(Ordering::SeqCst), 0);
}

#[test]
fn full_queue_is_applied_before_more_ops() {
    let mut p = Proactor::new();
    let mut ids = TimerIds::new();
    let (c, w) = counting_waker();
    for i in 0..(TIMER_OP_CAPACITY + 5) {
        p.insert_timer(i as u64, &w, &mut ids);
    }
    let mut wakers = Vec::new();
    assert_eq!(p.process_timers(u64::MAX, &mut wakers), Some(0));
    assert_eq!(wakers.len(), TIMER_OP_CAPACITY + 5);
    wake_all(wakers);
    assert_eq!(c.0.load(Ordering::SeqCst), TIMER_OP_CAPACITY + 5);
}

#[test]
fn only_first_notify_claims_the_flag() {
    let mut p = Proactor::new();
    let mut ids = TimerIds::new();
    assert!(!p.take_wake_request());
    assert!(p.notify());
    assert!(!p.notify());
    assert!(p.take_wake_request());
    assert!(!p.take_wake_request());
    assert!(p.clear_notified());
    assert!(!p.clear_notified());
    assert!(p.notify());
}

#[test]
fn inserting_a_timer_signals_a_wakeup() {
    let mut p = Proactor::new();
    let mut ids = TimerIds::new();
    let (_c, w) = counting_waker();
    p.insert_timer(5, &w, &mut ids);
    assert!(p.take_wake_request());
    p.insert_timer(6, &w, &mut ids);
    assert!(!p.take_wake_request());
    assert!(!p.notify());
}

#[test]
fn earlier_of_picks_the_smaller_bound() {
    assert_eq!(earlier_of(None, None), None);
    assert_eq!(earlier_of(Some(3), None), Some(3));
    assert_eq!(earlier_of(None, Some(7)), Some(7));
    assert_eq!(earlier_of(Some(9), Some(4)), Some(4));
    assert_eq!(earlier_of(Some(2), Some(4)), Some(2));
}

#[test]
fn prepare_wait_combines_bounds() {
    let mut p = Proactor::new();
    let mut ids = TimerIds::new();
    let (_c, w) = counting_waker();
    p.insert_timer(100, &w, &mut ids);
    let mut wakers = Vec::new();
    assert_eq!(p.prepare_wait(40, Some(20), &mut wakers), Some(20));
    assert_eq!(p.prepare_wait(40, Some(90), &mut wakers), Some(60));
    assert_eq!(p.prepare_wait(40, None, &mut wakers), Some(60));
    assert!(wakers.is_empty());
}

#[test]
fn finish_wait_outcomes() {
    let mut p = Proactor::new();
    let mut ids = TimerIds::new();
    let (c, w) = counting_waker();
    p.insert_timer(10, &w, &mut ids);
    p.notify();
    let mut wakers = Vec::new();
    // Events arrived: timers are left alone, the flag is cleared.
    assert!(p.finish_wait(SelectOutcome::Completed(2), Some(5), 50, &mut wakers));
    assert!(wakers.is_empty());
    assert!(p.notify());
    // A zero bound does not fire timers.
    assert!(p.finish_wait(SelectOutcome::Completed(0), Some(0), 50, &mut wakers));
    assert!(wakers.is_empty());
    // A timed-out wait fires the due timers.
    assert!(p.finish_wait(SelectOutcome::Completed(0), Some(5), 50, &mut wakers));
    assert_eq!(wakers.len(), 1);
    wake_all(wakers);
    assert_eq!(c.0.load(Ordering::SeqCst), 1);
    let mut none = Vec::new();
    assert!(p.finish_wait(SelectOutcome::Interrupted, None, 60, &mut none));
    assert!(!p.finish_wait(SelectOutcome::Failed, None, 60, &mut none));
    assert!(none.is_empty());
}

#[test]
fn ids_are_unique_across_proactors() {
    let mut ids = TimerIds::new();
    let mut first = Proactor::new();
    let mut second = Proactor::new();
    let (_c, w) = counting_waker();
    let a = first.insert_timer(10, &w, &mut ids);
    let b = second.insert_timer(10, &w, &mut ids);
    let c = first.insert_timer(10, &w, &mut ids);
    assert_eq!((a, b, c), (1, 2, 3));
    assert_eq!(ids.fresh(), 4);
}

#[test]
fn cancel_on_another_proactor_leaves_foreign_timer() {
    let mut ids = TimerIds::new();
    let mut first = Proactor::new();
    let mut second = Proactor::new();
    let (c, w) = counting_waker();
    let a = first.insert_timer(10, &w, &mut ids);
    second.insert_timer(10, &w, &mut ids);
    // Cancelling the first proactor's key on the second one removes nothing there.
    second.remove_timer(10, a);
    let mut wakers = Vec::new();
    assert_eq!(second.process_timers(100, &mut wakers), Some(0));
    assert_eq!(wakers.len(), 1);
    wake_all(wakers);
    assert_eq!(c.0.load(Ordering::SeqCst), 1);
}
