//! Pending tasks, as the dispatcher handles them and as the store holds them.
use vstd::prelude::*;

use crate::id::{be_value, Id, ID_LEN};
use crate::time::Timestamp;

verus! {

/// A pending task: a payload to publish to `routing_key` (on `exchange`, or on
/// the default exchange where it is `None`) once `run_at` has come.
#[derive(Debug)]
pub struct Task {
    pub id: Id,
    pub exchange: Option<String>,
    pub routing_key: String,
    pub run_at: Timestamp,
    pub payload: Vec<u8>,
}

/// A task as the store returns it, its identifier still in stored form.
#[derive(Debug)]
pub struct TaskRow {
    pub id: Vec<u8>,
    pub exchange: Option<String>,
    pub routing_key: String,
    pub run_at: Timestamp,
    pub payload: Vec<u8>,
}

/// What a task holds, as plain values.
pub struct TaskView {
    pub id: u128,
    pub exchange: Option<Seq<char>>,
    pub routing_key: Seq<char>,
    pub run_at: Timestamp,
    pub payload: Seq<u8>,
}

/// What each task of `tasks` holds.
pub open spec fn views(tasks: Seq<Task>) -> Seq<TaskView> {
    tasks.map_values(|t: Task| t@)
}

/// The view of an optional string.
pub open spec fn opt_str_view(s: Option<String>) -> Option<Seq<char>> {
    match s {
        Some(x) => Some(x@),
        None => None,
    }
}

impl View for Task {
    type V = TaskView;

    open spec fn view(&self) -> TaskView {
        TaskView {
            id: self.id.0,
            exchange: opt_str_view(self.exchange),
            routing_key: self.routing_key@,
            run_at: self.run_at,
            payload: self.payload@,
        }
    }
}

impl Task {
    pub open spec fn wf(&self) -> bool {
        self.run_at.wf()
    }

    /// The exchange to publish on: the one the task names, or the default
    /// (empty) one.
    pub fn exchange_name(&self) -> (r: &str)
        ensures
            r@ == match self.exchange {
                Some(e) => e@,
                None => Seq::<char>::empty(),
            },
    {
        match &self.exchange {
            Some(e) => e.as_str(),
            None => {
                proof {
                    reveal_strlit("");
                }
                ""
            },
        }
    }

    /// An equal copy of the task.
    pub fn duplicate(&self) -> (r: Task)
        ensures
            r@ == self@,
    {
        let exchange = match &self.exchange {
            Some(e) => Some(e.clone()),
            None => None,
        };
        let payload = copy_bytes(&self.payload);
        Task {
            id: self.id,
            exchange,
            routing_key: self.routing_key.clone(),
            run_at: self.run_at,
            payload,
        }
    }
}

impl TaskRow {
    /// The row holds an identifier of the stored length.
    pub open spec fn is_decodable(&self) -> bool {
        self.id@.len() == ID_LEN
    }

    /// The task that a decodable row stands for.
    pub open spec fn spec_task(&self) -> TaskView {
        TaskView {
            id: be_value(self.id@) as u128,
            exchange: opt_str_view(self.exchange),
            routing_key: self.routing_key@,
            run_at: self.run_at,
            payload: self.payload@,
        }
    }

    /// The task that the row stands for, or `None` where its identifier does
    /// not have the stored length.
    pub fn into_task(self) -> (r: Option<Task>)
        ensures
            r is Some <==> self.is_decodable(),
            r is Some ==> r->0@ == self.spec_task(),
    {
        match Id::from_bytes(self.id.as_slice()) {
            Some(id) => Some(
                Task {
                    id,
                    exchange: self.exchange,
                    routing_key: self.routing_key,
                    run_at: self.run_at,
                    payload: self.payload,
                },
            ),
            None => None,
        }
    }
}

/// The tasks that `rows` stand for, in order, leaving out rows whose
/// identifier cannot be read.
pub open spec fn decoded(rows: Seq<TaskRow>) -> Seq<TaskView>
    decreases rows.len(),
{
    if rows.len() == 0 {
        Seq::empty()
    } else {
        let rest = decoded(rows.drop_last());
        if rows.last().is_decodable() {
            rest.push(rows.last().spec_task())
        } else {
            rest
        }
    }
}

/// Turns the rows that the store returned into tasks, in order, dropping
/// those whose identifier cannot be read.
pub fn decode_rows(rows: Vec<TaskRow>) -> (r: Vec<Task>)
    ensures
        views(r@) == decoded(rows@),
{
    let ghost all = rows@;
    let mut rows = rows;
    let mut out: Vec<Task> = Vec::new();
    let n: usize = rows.len();
    let mut i: usize = 0;
    while i < n
        invariant
            n == all.len(),
            i <= n,
            rows@ == all.skip(i as int),
            views(out@) == decoded(all.take(i as int)),
        decreases n - i,
    {
        let row = rows.remove(0);
        proof {
            assert(all.take(i + 1).drop_last() =~= all.take(i as int));
            assert(all.take(i + 1).last() == all[i as int]);
        }
        let ghost prev = out@;
        if let Some(task) = row.into_task() {
            out.push(task);
            assert(views(out@) =~= views(prev).push(task@));
        }
        i = i + 1;
        assert(rows@ =~= all.skip(i as int));
    }
    assert(all.take(i as int) =~= all);
    out
}

/// An equal copy of `bytes`.
pub fn copy_bytes(bytes: &Vec<u8>) -> (r: Vec<u8>)
    ensures
        r@ == bytes@,
{
    let mut out: Vec<u8> = Vec::new();
    let mut i: usize = 0;
    while i < bytes.len()
        invariant
            i <= bytes@.len(),
            out@ =~= bytes@.take(i as int),
        decreases bytes@.len() - i,
    {
        out.push(bytes[i]);
        i = i + 1;
        assert(out@ =~= bytes@.take(i as int));
    }
    assert(bytes@.take(i as int) =~= bytes@);
    out
}

} // verus!
