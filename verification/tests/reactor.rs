use whirl::reactor::{
    backlog_after_submit, backlog_step, completions_wanted, BatchAction, BatchSubmit, Completion,
    DrainAction, Event, Operation, Reactor, Submission, SubmitOutcome, NOTIFY_USER_DATA,
    RESERVED_USER_DATA, TIMEOUT_REMOVE_USER_DATA, TIMEOUT_USER_DATA,
};

fn completion(result: i32, user_data: u64) -> Completion {
    Completion { result, user_data }
}

#[test]
fn reserved_tags_sit_at_the_top() {
    assert_eq!(NOTIFY_USER_DATA, u64::MAX);
    assert_eq!(TIMEOUT_USER_DATA, u64::MAX - 1);
    assert_eq!(TIMEOUT_REMOVE_USER_DATA, u64::MAX - 2);
    assert_eq!(RESERVED_USER_DATA, u64::MAX - 16);
}

#[test]
fn eventfd_read_is_tagged_for_the_runtime() {
    let r = Reactor::new(7, 0x1000);
    assert_eq!(
        r.register_eventfd(),
        Submission { op: Operation::Read { fd: 7, buf: 0x1000, len: 8 }, user_data: u64::MAX }
    );
}

#[test]
fn completions_become_events_in_order() {
    let r = Reactor::new(3, 64);
    let completions = vec![
        completion(5, 1),
        completion(1, NOTIFY_USER_DATA),
        completion(-4, 2),
        completion(0, TIMEOUT_USER_DATA),
        completion(9, RESERVED_USER_DATA),
        completion(7, RESERVED_USER_DATA - 1),
        completion(1, NOTIFY_USER_DATA),
    ];
    let mut events = vec![Event { ret: 100, user_data: 100 }];
    let rearm = r.collect_events(&completions, &mut events);
    assert_eq!(
        events,
        vec![
            Event { ret: 5, user_data: 1 },
            Event { ret: -4, user_data: 2 },
            Event { ret: 7, user_data: RESERVED_USER_DATA - 1 },
        ]
    );
    assert_eq!(rearm.len(), 2);
    for s in rearm {
        assert_eq!(s, r.register_eventfd());
    }
}

#[test]
fn no_completions_no_events() {
    let r = Reactor::new(3, 64);
    let mut events = vec![Event { ret: 1, user_data: 1 }];
    let rearm = r.collect_events(&Vec::new(), &mut events);
    assert!(events.is_empty());
    assert!(rearm.is_empty());
}

#[test]
fn wait_wants_a_completion_only_without_bound() {
    assert_eq!(completions_wanted(None), 1);
    assert_eq!(completions_wanted(Some(0)), 0);
    assert_eq!(completions_wanted(Some(5)), 0);
}

#[test]
fn timeout_is_armed_once() {
    let mut r = Reactor::new(3, 64);
    assert_eq!(r.remove_timeout_entry(), None);
    assert_eq!(r.register_timeout_entry(None), None);
    assert_eq!(r.register_timeout_entry(Some(0)), None);
    assert_eq!(
        r.register_timeout_entry(Some(2_500_000_007)),
        Some(Submission { op: Operation::Timeout { secs: 2, nanos: 500_000_007 }, user_data: u64::MAX - 1 })
    );
    assert_eq!(r.register_timeout_entry(Some(10)), None);
    assert_eq!(
        r.remove_timeout_entry(),
        Some(Submission { op: Operation::TimeoutRemove { target: u64::MAX - 1 }, user_data: u64::MAX - 2 })
    );
}

#[test]
fn batch_pushes_while_slots_are_free() {
    let mut b = BatchSubmit::new(4, 2);
    assert!(!b.needs_final_submit());
    assert_eq!(b.next_entry(), BatchAction::Push);
    assert!(b.needs_final_submit());
    assert_eq!(b.next_entry(), BatchAction::Push);
    assert_eq!(b.next_entry(), BatchAction::SubmitAndSkip);
    assert!(!b.needs_final_submit());
    b.refill(4, 1);
    assert!(!b.needs_final_submit());
    assert_eq!(b.next_entry(), BatchAction::Push);
    assert_eq!(b.next_entry(), BatchAction::Push);
    assert_eq!(b.next_entry(), BatchAction::Push);
    assert_eq!(b.next_entry(), BatchAction::SubmitAndSkip);
}

#[test]
fn batch_on_a_full_queue_submits_first() {
    let mut b = BatchSubmit::new(8, 8);
    assert_eq!(b.next_entry(), BatchAction::SubmitAndSkip);
    assert!(!b.needs_final_submit());
}

#[test]
fn backlog_drain_steps() {
    assert_eq!(backlog_step(true, true), DrainAction::Submit);
    assert_eq!(backlog_step(true, false), DrainAction::Submit);
    assert_eq!(backlog_step(false, true), DrainAction::PushNext);
    assert_eq!(backlog_step(false, false), DrainAction::Finish);
    assert_eq!(backlog_after_submit(SubmitOutcome::Submitted, true), DrainAction::PushNext);
    assert_eq!(backlog_after_submit(SubmitOutcome::Submitted, false), DrainAction::Finish);
    assert_eq!(backlog_after_submit(SubmitOutcome::Busy, true), DrainAction::Finish);
    assert_eq!(backlog_after_submit(SubmitOutcome::Failed, true), DrainAction::Fail);
}

#[test]
fn batch_submit_outcomes() {
    let mut b = BatchSubmit::new(2, 2);
    assert_eq!(b.next_entry(), BatchAction::SubmitAndSkip);
    assert!(b.submitted(SubmitOutcome::Submitted, 2, 0));
    assert_eq!(b.next_entry(), BatchAction::Push);
    assert_eq!(b.next_entry(), BatchAction::Push);
    assert_eq!(b.next_entry(), BatchAction::SubmitAndSkip);
    assert!(!b.submitted(SubmitOutcome::Busy, 2, 0));
    assert_eq!(b.next_entry(), BatchAction::SubmitAndSkip);
    assert!(!b.submitted(SubmitOutcome::Failed, 2, 0));
    assert_eq!(b.next_entry(), BatchAction::SubmitAndSkip);
}
