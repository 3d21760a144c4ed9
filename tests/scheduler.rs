use task_scheduler::id::Id;
use task_scheduler::scheduler::{start, step, Action, Event, Phase};
use task_scheduler::service::schedule;
use task_scheduler::signal::WaitSignal;
use task_scheduler::store::{MemoryStore, StoreError};
use task_scheduler::task::Task;
use task_scheduler::time::{millis_until, Timestamp};

fn at_ms(ms: i64) -> Timestamp {
    Timestamp { secs: ms.div_euclid(1000), nanos: (ms.rem_euclid(1000) as u32) * 1_000_000 }
}

fn task(id: u128, ms: i64) -> Task {
    Task { id: Id(id), exchange: Some("ex".to_string()), routing_key: "k".to_string(), run_at: at_ms(ms), payload: Vec::new() }
}

#[test]
fn interrupt_ends_a_wait_and_polls_again() {
    assert_eq!(step(Phase::Waiting, Event::Interrupted), (Phase::Polling, Action::QueryEarliest));
    assert_eq!(
        step(Phase::Waiting, Event::TimerFired),
        (Phase::Dispatching, Action::Dispatch { missed_by_millis: 0 })
    );
}

#[test]
fn empty_store_blocks_without_timeout() {
    let (phase, action) = start();
    assert_eq!((phase, action), (Phase::Polling, Action::QueryEarliest));
    let (phase, action) = step(phase, Event::Polled { earliest: None, now: at_ms(0) });
    assert_eq!((phase, action), (Phase::Blocked, Action::AwaitSignal));
    assert_eq!(step(Phase::Blocked, Event::TimerFired), (Phase::Blocked, Action::Ignore));
    assert_eq!(step(Phase::Blocked, Event::BatchDone), (Phase::Blocked, Action::Ignore));
    assert_eq!(step(Phase::Blocked, Event::Interrupted), (Phase::Polling, Action::QueryEarliest));
}

#[test]
fn earlier_task_is_dispatched_first() {
    let now = 1_000_000i64;
    let mut store = MemoryStore::new();
    let mut signal = WaitSignal::new();
    let _ = signal.get_or_create();
    assert_eq!(schedule(&mut store, &mut signal, task(1, now + 5000)), Ok(()));
    let (phase, _) = step(Phase::Polling, Event::Polled { earliest: store.earliest_run_at(), now: at_ms(now) });
    assert_eq!(phase, Phase::Waiting);
    let _ = signal.get_or_create();
    assert_eq!(schedule(&mut store, &mut signal, task(2, now + 1000)), Ok(()));
    assert!(!signal.is_live());
    // the wait on task 1 ends at once and the loop polls again
    let (phase, action) = step(phase, Event::Interrupted);
    assert_eq!(action, Action::QueryEarliest);
    let (phase, action) = step(phase, Event::Polled { earliest: store.earliest_run_at(), now: at_ms(now) });
    assert_eq!(action, Action::AwaitSignalOrTimer { millis: 1000 });
    let (phase, action) = step(phase, Event::TimerFired);
    assert!(matches!(action, Action::Dispatch { .. }));
    let due = store.select_due(&at_ms(now + 1000));
    assert_eq!(due.len(), 1);
    assert_eq!(due[0].id, Id(2));
    assert!(store.delete(Id(2)));
    let (phase, _) = step(phase, Event::BatchDone);
    let (_, action) = step(phase, Event::Polled { earliest: store.earliest_run_at(), now: at_ms(now + 1000) });
    // task 1 is then due 4 s later: 5 s after the start, not 6 s
    assert_eq!(action, Action::AwaitSignalOrTimer { millis: 4000 });
}

#[test]
fn past_task_is_dispatched_without_waiting() {
    let now = at_ms(50_000);
    let (phase, action) = step(Phase::Polling, Event::Polled { earliest: Some(at_ms(40_000)), now });
    assert_eq!(phase, Phase::Dispatching);
    assert_eq!(action, Action::Dispatch { missed_by_millis: 10_000 });
    assert_eq!(step(phase, Event::BatchDone), (Phase::Polling, Action::QueryEarliest));
}

#[test]
fn due_exactly_now_dispatches() {
    let (phase, action) = step(Phase::Polling, Event::Polled { earliest: Some(at_ms(7)), now: at_ms(7) });
    assert_eq!((phase, action), (Phase::Dispatching, Action::Dispatch { missed_by_millis: 0 }));
}

#[test]
fn task_due_within_a_millisecond_is_waited_for() {
    let now = Timestamp { secs: 100, nanos: 0 };
    let soon = Timestamp { secs: 100, nanos: 500_000 };
    assert_eq!(
        step(Phase::Polling, Event::Polled { earliest: Some(soon), now }),
        (Phase::Waiting, Action::AwaitSignalOrTimer { millis: 1 })
    );
    let later = Timestamp { secs: 100, nanos: 2_000_001 };
    assert_eq!(
        step(Phase::Polling, Event::Polled { earliest: Some(later), now }),
        (Phase::Waiting, Action::AwaitSignalOrTimer { millis: 3 })
    );
}

#[test]
fn leap_second_instant_orders_before_the_next_minute() {
    let now = Timestamp { secs: 59, nanos: 1_500_000_000 };
    let next_minute = Timestamp { secs: 60, nanos: 0 };
    assert_eq!(
        step(Phase::Polling, Event::Polled { earliest: Some(next_minute), now }),
        (Phase::Waiting, Action::AwaitSignalOrTimer { millis: 1 })
    );
    let (phase, _) = step(Phase::Polling, Event::Polled { earliest: Some(now), now: next_minute });
    assert_eq!(phase, Phase::Dispatching);
}

#[test]
fn millis_until_rounds_toward_zero() {
    assert_eq!(millis_until(&at_ms(0), &at_ms(1500)), 1500);
    assert_eq!(millis_until(&at_ms(1500), &at_ms(0)), -1500);
    let a = Timestamp { secs: 10, nanos: 0 };
    let b = Timestamp { secs: 10, nanos: 2_500_000 };
    assert_eq!(millis_until(&a, &b), 2);
    assert_eq!(millis_until(&b, &a), -2);
    assert_eq!(millis_until(&Timestamp { secs: 3, nanos: 999_999 }, &Timestamp { secs: 4, nanos: 0 }), 999);
}

#[test]
fn signal_mints_a_fresh_token_after_an_interrupt() {
    let mut signal = WaitSignal::new();
    assert!(!signal.interrupt());
    let first = signal.get_or_create();
    let again = signal.get_or_create();
    assert!(signal.is_live());
    assert!(signal.interrupt());
    assert!(first.is_cancelled());
    assert!(again.is_cancelled());
    assert!(!signal.is_live());
    let fresh = signal.get_or_create();
    assert!(!fresh.is_cancelled());
    assert!(signal.interrupt());
}

#[test]
fn refused_schedule_leaves_the_loop_waiting() {
    let mut store = MemoryStore::new();
    let mut signal = WaitSignal::new();
    assert_eq!(schedule(&mut store, &mut signal, task(1, 10)), Ok(()));
    let token = signal.get_or_create();
    assert_eq!(schedule(&mut store, &mut signal, task(1, 20)), Err(StoreError::DuplicateId));
    assert!(signal.is_live());
    assert!(!token.is_cancelled());
    assert_eq!(store.count(), 1);
}
