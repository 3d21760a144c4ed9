//! The decisions of the scheduling loop. The loop itself (the queries, the
//! timer, the wait on the signal) is run by the caller, which hands each
//! outcome to `step` and performs the action it returns.
use vstd::prelude::*;

use crate::store::{insert_position, lemma_due_prefix, store_wf};
use crate::task::TaskView;
use crate::time::{millis_between, millis_to_wait, millis_until, wait_millis, Timestamp};

verus! {

/// Where the loop stands.
#[derive(Clone, Copy, Debug, PartialEq, Eq, Structural)]
pub enum Phase {
    /// Asking the store for the earliest due time.
    Polling,
    /// Nothing is pending: waiting on the signal alone, with no timeout.
    Blocked,
    /// Waiting for the earliest due time, or for the signal.
    Waiting,
    /// Running a batch over the due tasks.
    Dispatching,
}

/// What happened since the last step.
#[derive(Clone, Copy, Debug, PartialEq, Eq, Structural)]
pub enum Event {
    /// The store answered the query: the earliest due time of a pending
    /// task, if any, and the time at which the answer came.
    Polled { earliest: Option<Timestamp>, now: Timestamp },
    /// The timer of a wait ran out.
    TimerFired,
    /// The signal fired: a task was scheduled that may be due earlier.
    Interrupted,
    /// The batch finished, well or not.
    BatchDone,
}

/// What the caller does next.
#[derive(Clone, Copy, Debug, PartialEq, Eq, Structural)]
pub enum Action {
    /// Query the store for the earliest due time.
    QueryEarliest,
    /// Wait on the signal, with no timeout.
    AwaitSignal,
    /// Wait on the signal and on a timer of this many milliseconds (the time
    /// until the earliest due time, rounded up), whichever comes first.
    AwaitSignalOrTimer { millis: u64 },
    /// Run a batch over the tasks due now; the earliest of them was late by
    /// this many milliseconds (rounded down).
    Dispatch { missed_by_millis: u64 },
    /// The event does not belong to this phase: nothing to do.
    Ignore,
}

/// `x` capped to the range of `u64`.
pub open spec fn cap_u64(x: int) -> u64 {
    if x > u64::MAX {
        u64::MAX
    } else if x < 0 {
        0
    } else {
        x as u64
    }
}

/// The loop's transition from `phase` on `event`: the next phase and the
/// action to perform.
pub open spec fn next_step(phase: Phase, event: Event) -> (Phase, Action) {
    match (phase, event) {
        (Phase::Polling, Event::Polled { earliest, now }) => match earliest {
            None => (Phase::Blocked, Action::AwaitSignal),
            Some(run_at) => {
                if run_at.spec_le(now) {
                    (
                        Phase::Dispatching,
                        Action::Dispatch { missed_by_millis: cap_u64(millis_between(run_at, now)) },
                    )
                } else {
                    (
                        Phase::Waiting,
                        Action::AwaitSignalOrTimer { millis: cap_u64(wait_millis(now, run_at)) },
                    )
                }
            },
        },
        (Phase::Blocked, Event::Interrupted) => (Phase::Polling, Action::QueryEarliest),
        (Phase::Waiting, Event::Interrupted) => (Phase::Polling, Action::QueryEarliest),
        (Phase::Waiting, Event::TimerFired) => (
            Phase::Dispatching,
            Action::Dispatch { missed_by_millis: 0 },
        ),
        (Phase::Dispatching, Event::BatchDone) => (Phase::Polling, Action::QueryEarliest),
        _ => (phase, Action::Ignore),
    }
}

/// The timestamps that an event carries are well formed.
pub open spec fn event_wf(event: Event) -> bool {
    match event {
        Event::Polled { earliest, now } => now.wf() && (earliest matches Some(r) ==> r.wf()),
        _ => true,
    }
}

/// Where the loop starts, and its first action.
pub fn start() -> (r: (Phase, Action))
    ensures
        r == (Phase::Polling, Action::QueryEarliest),
{
    (Phase::Polling, Action::QueryEarliest)
}

/// `x` capped to the range of `u64`.
fn to_u64_capped(x: i128) -> (r: u64)
    ensures
        r == cap_u64(x as int),
{
    if x > u64::MAX as i128 {
        u64::MAX
    } else if x < 0 {
        0
    } else {
        x as u64
    }
}

/// One step of the scheduling loop.
///
/// A wait ends early on an interrupt, and the loop then polls the store
/// afresh; with nothing pending it waits on the signal alone, and only an
/// interrupt moves it on.
pub fn step(phase: Phase, event: Event) -> (r: (Phase, Action))
    requires
        event_wf(event),
    ensures
        r == next_step(phase, event),
        phase == Phase::Waiting && event == Event::Interrupted ==> r == (
            Phase::Polling,
            Action::QueryEarliest,
        ),
        phase == Phase::Polling && (event matches Event::Polled { earliest: None, .. }) ==> r == (
            Phase::Blocked,
            Action::AwaitSignal,
        ),
        phase == Phase::Polling ==> (event matches Event::Polled { earliest: Some(run_at), now }
            ==> (r.0 == Phase::Dispatching <==> run_at.spec_le(now))),
        phase == Phase::Polling ==> (event matches Event::Polled { earliest: Some(run_at), now }
            ==> (!run_at.spec_le(now) ==> (r.1 matches Action::AwaitSignalOrTimer { millis }
            && millis >= 1))),
        phase == Phase::Blocked ==> (event == Event::Interrupted <==> r.0 != Phase::Blocked),
        phase == Phase::Blocked && event != Event::Interrupted ==> r.1 == Action::Ignore,
{
    match (phase, event) {
        (Phase::Polling, Event::Polled { earliest, now }) => match earliest {
            None => (Phase::Blocked, Action::AwaitSignal),
            Some(run_at) => {
                if run_at.le(&now) {
                    (
                        Phase::Dispatching,
                        Action::Dispatch {
                            missed_by_millis: to_u64_capped(millis_until(&run_at, &now)),
                        },
                    )
                } else {
                    (
                        Phase::Waiting,
                        Action::AwaitSignalOrTimer {
                            millis: to_u64_capped(millis_to_wait(&now, &run_at)),
                        },
                    )
                }
            },
        },
        (Phase::Blocked, Event::Interrupted) => (Phase::Polling, Action::QueryEarliest),
        (Phase::Waiting, Event::Interrupted) => (Phase::Polling, Action::QueryEarliest),
        (Phase::Waiting, Event::TimerFired) => (
            Phase::Dispatching,
            Action::Dispatch { missed_by_millis: 0 },
        ),
        (Phase::Dispatching, Event::BatchDone) => (Phase::Polling, Action::QueryEarliest),
        _ => (phase, Action::Ignore),
    }
}

/// While the loop waits for the earliest task of `s`, scheduling a task `t`
/// due strictly earlier and firing the signal ends the wait at once: the loop
/// polls again, and the store then names `t`'s due time as the earliest.
pub proof fn lemma_earlier_task_cuts_wait(s: Seq<TaskView>, t: TaskView)
    requires
        store_wf(s),
        s.len() > 0,
        !s[0].run_at.spec_le(t.run_at),
    ensures
        next_step(Phase::Waiting, Event::Interrupted) == (Phase::Polling, Action::QueryEarliest),
        insert_position(s, t.run_at) == 0,
        s.insert(insert_position(s, t.run_at), t)[0].run_at == t.run_at,
{
    lemma_due_prefix(s, t.run_at, 0);
}

} // verus!
