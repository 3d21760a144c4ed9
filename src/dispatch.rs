//! The batch dispatcher: the order in which due tasks go to the message bus,
//! and the bookkeeping of one batch while it runs.
use vstd::prelude::*;

use crate::id::Id;
use crate::time::Timestamp;
use crate::store::{deleted, due_at, has_id, other_than, pending_at, store_wf};
use crate::task::{views, Task, TaskView};

verus! {

broadcast use vstd::seq_lib::group_filter_ensures;

/// Holds of the tasks routed to `key`.
pub open spec fn routed_to(key: Seq<char>) -> spec_fn(TaskView) -> bool {
    |t: TaskView| t.routing_key == key
}

/// Holds of the tasks routed elsewhere than `key`.
pub open spec fn routed_elsewhere(key: Seq<char>) -> spec_fn(TaskView) -> bool {
    |t: TaskView| t.routing_key != key
}

/// The tasks of `s` grouped by routing key: the first task with every later
/// task that shares its key, in their order in `s`, then the others grouped
/// in the same way. Groups come in the order in which their keys first
/// appear.
pub open spec fn grouped(s: Seq<TaskView>) -> Seq<TaskView>
    decreases s.len(),
{
    if s.len() == 0 {
        s
    } else {
        let key = s[0].routing_key;
        seq![s[0]] + s.skip(1).filter(routed_to(key)) + grouped(
            s.skip(1).filter(routed_elsewhere(key)),
        )
    }
}

/// Orders due tasks for dispatch: tasks that share a routing key stand
/// together, each group keeping the order of `tasks`.
pub fn group_by_routing_key(tasks: Vec<Task>) -> (r: Vec<Task>)
    ensures
        views(r@) == grouped(views(tasks@)),
{
    let ghost all = views(tasks@);
    let mut rest = tasks;
    let mut out: Vec<Task> = Vec::new();
    assert(views(out@) + grouped(views(rest@)) =~= grouped(all));
    while rest.len() > 0
        invariant
            views(out@) + grouped(views(rest@)) == grouped(all),
        decreases rest@.len(),
    {
        let ghost whole = views(rest@);
        let first = rest.remove(0);
        let key = first.routing_key.clone();
        let ghost tail = views(rest@);
        let ghost head = first@;
        assert(tail =~= whole.skip(1));
        assert(head == whole[0]);
        let mut same: Vec<Task> = Vec::new();
        same.push(first);
        let mut other: Vec<Task> = Vec::new();
        let n: usize = rest.len();
        let mut j: usize = 0;
        assert(views(same@) =~= seq![head] + tail.take(0).filter(routed_to(key@)));
        assert(views(other@) =~= tail.take(0).filter(routed_elsewhere(key@)));
        while j < n
            invariant
                n == tail.len(),
                j <= n,
                rest@.len() == n - j,
                views(rest@) == tail.skip(j as int),
                views(same@) == seq![head] + tail.take(j as int).filter(routed_to(key@)),
                views(other@) == tail.take(j as int).filter(routed_elsewhere(key@)),
            decreases n - j,
        {
            let ghost r0 = rest@;
            let t = rest.remove(0);
            proof {
                assert(views(r0)[0] == tail.skip(j as int)[0]);
                assert(t@ == tail[j as int]);
                assert(views(rest@) =~= views(r0).skip(1));
                assert(tail.take(j + 1) =~= tail.take(j as int).push(t@));
                tail.take(j as int).lemma_filter_push(t@, routed_to(key@));
                tail.take(j as int).lemma_filter_push(t@, routed_elsewhere(key@));
            }
            let ghost s0 = same@;
            let ghost o0 = other@;
            if t.routing_key == key {
                same.push(t);
                assert(views(same@) =~= views(s0).push(t@));
            } else {
                other.push(t);
                assert(views(other@) =~= views(o0).push(t@));
            }
            j = j + 1;
            assert(views(rest@) =~= tail.skip(j as int));
        }
        assert(tail.take(n as int) =~= tail);
        let ghost o1 = out@;
        let ghost s1 = same@;
        out.append(&mut same);
        assert(views(out@) =~= views(o1) + views(s1));
        rest = other;
        assert(views(out@) + grouped(views(rest@)) =~= views(o1) + grouped(whole));
    }
    assert(views(out@) =~= grouped(all));
    out
}

/// Where one batch stands: the tasks in dispatch order, how many have been
/// handled, and how many of those the bus accepted or refused.
pub struct BatchView {
    pub plan: Seq<TaskView>,
    pub next: nat,
    pub succeeded: nat,
    pub failed: nat,
}

/// One run of the batch dispatcher. Each task in turn is offered to the bus
/// and then deleted from the store, whatever the bus answered.
pub struct Batch {
    tasks: Vec<Task>,
    next: usize,
    succeeded: usize,
    failed: usize,
}

impl View for Batch {
    type V = BatchView;

    closed spec fn view(&self) -> BatchView {
        BatchView {
            plan: views(self.tasks@),
            next: self.next as nat,
            succeeded: self.succeeded as nat,
            failed: self.failed as nat,
        }
    }
}

impl Batch {
    /// Every task handled is counted once, as accepted or as refused.
    pub closed spec fn wf(&self) -> bool {
        &&& self.tasks@.len() <= usize::MAX
        &&& self.next <= self.tasks@.len()
        &&& self.succeeded + self.failed == self.next
    }

    /// A batch over the due tasks `due` (in ascending order of due time),
    /// grouped by routing key, with nothing handled yet.
    pub fn plan(due: Vec<Task>) -> (r: Batch)
        ensures
            r.wf(),
            r@.plan == grouped(views(due@)),
            r@.next == 0,
            r@.succeeded == 0,
            r@.failed == 0,
    {
        let tasks = group_by_routing_key(due);
        // a vector's length fits in usize
        let _len: usize = tasks.len();
        Batch { tasks, next: 0, succeeded: 0, failed: 0 }
    }

    /// The task to offer to the bus next, or `None` once every task has been
    /// handled.
    pub fn current(&self) -> (r: Option<&Task>)
        requires
            self.wf(),
        ensures
            r is Some <==> self@.next < self@.plan.len(),
            r is Some ==> r->0@ == self@.plan[self@.next as int],
    {
        if self.next < self.tasks.len() {
            Some(&self.tasks[self.next])
        } else {
            None
        }
    }

    /// Records what the bus answered for the current task and moves past it.
    /// Returns the identifier to delete from the store, which is owed
    /// whether or not the bus accepted the task.
    pub fn record(&mut self, published: bool) -> (r: Id)
        requires
            old(self).wf(),
            old(self)@.next < old(self)@.plan.len(),
        ensures
            final(self).wf(),
            r.0 == old(self)@.plan[old(self)@.next as int].id,
            final(self)@.plan == old(self)@.plan,
            final(self)@.next == old(self)@.next + 1,
            final(self)@.succeeded == old(self)@.succeeded + (if published {
                1int
            } else {
                0int
            }),
            final(self)@.failed == old(self)@.failed + (if published {
                0int
            } else {
                1int
            }),
    {
        let id = self.tasks[self.next].id;
        if published {
            self.succeeded = self.succeeded + 1;
        } else {
            self.failed = self.failed + 1;
        }
        self.next = self.next + 1;
        id
    }

    /// Whether every task of the batch has been handled.
    pub fn is_done(&self) -> (r: bool)
        requires
            self.wf(),
        ensures
            r == (self@.next == self@.plan.len()),
    {
        self.next == self.tasks.len()
    }

    /// The number of tasks in the batch.
    pub fn len(&self) -> (r: usize)
        ensures
            r == self@.plan.len(),
    {
        self.tasks.len()
    }

    /// The number of tasks handled so far.
    pub fn processed(&self) -> (r: usize)
        ensures
            r == self@.next,
    {
        self.next
    }

    /// The number of tasks that the bus accepted.
    pub fn succeeded(&self) -> (r: usize)
        ensures
            r == self@.succeeded,
    {
        self.succeeded
    }

    /// The number of tasks that the bus refused.
    pub fn failed(&self) -> (r: usize)
        ensures
            r == self@.failed,
    {
        self.failed
    }
}

/// The store `s` after deleting, in turn, the task of each identifier in
/// `plan`.
pub open spec fn deleted_all(s: Seq<TaskView>, plan: Seq<TaskView>) -> Seq<TaskView>
    decreases plan.len(),
{
    if plan.len() == 0 {
        s
    } else {
        deleted(deleted_all(s, plan.drop_last()), plan.last().id)
    }
}

/// Holds of the tasks whose identifier no task of `plan` has.
pub open spec fn outside_plan(plan: Seq<TaskView>) -> spec_fn(TaskView) -> bool {
    |t: TaskView| !has_id(plan, t.id)
}

proof fn lemma_filter_ext(
    s: Seq<TaskView>,
    p: spec_fn(TaskView) -> bool,
    q: spec_fn(TaskView) -> bool,
)
    requires
        forall|i: int| 0 <= i < s.len() ==> p(s[i]) == q(s[i]),
    ensures
        s.filter(p) == s.filter(q),
    decreases s.len(),
{
    reveal(Seq::filter);
    if s.len() > 0 {
        lemma_filter_ext(s.drop_last(), p, q);
    }
}

proof fn lemma_filter_filter(
    s: Seq<TaskView>,
    p: spec_fn(TaskView) -> bool,
    q: spec_fn(TaskView) -> bool,
)
    ensures
        s.filter(p).filter(q) == s.filter(|t: TaskView| p(t) && q(t)),
    decreases s.len(),
{
    reveal(Seq::filter);
    if s.len() > 0 {
        lemma_filter_filter(s.drop_last(), p, q);
        let sub = s.drop_last().filter(p);
        if p(s.last()) {
            sub.lemma_filter_push(s.last(), q);
        }
    }
}

/// Deleting the tasks of `plan` one by one leaves the tasks whose
/// identifier is not in `plan`.
proof fn lemma_deleted_all(s: Seq<TaskView>, plan: Seq<TaskView>)
    ensures
        deleted_all(s, plan) == s.filter(outside_plan(plan)),
    decreases plan.len(),
{
    if plan.len() == 0 {
        lemma_filter_ext(s, outside_plan(plan), |t: TaskView| true);
        lemma_filter_all(s);
    } else {
        let prev = plan.drop_last();
        let x = plan.last();
        lemma_deleted_all(s, prev);
        lemma_filter_filter(s, outside_plan(prev), other_than(x.id));
        assert forall|i: int| 0 <= i < s.len() implies ((|t: TaskView|
            outside_plan(prev)(t) && other_than(x.id)(t))(s[i]) == outside_plan(plan)(s[i])) by {
            let t = s[i];
            if has_id(prev, t.id) {
                let k = choose|k: int| 0 <= k < prev.len() && prev[k].id == t.id;
                assert(plan[k] == prev[k]);
            }
            if has_id(plan, t.id) {
                let k = choose|k: int| 0 <= k < plan.len() && plan[k].id == t.id;
                if k < prev.len() {
                    assert(prev[k] == plan[k]);
                }
            }
            if t.id == x.id {
                assert(plan[plan.len() - 1] == x);
            }
        }
        lemma_filter_ext(
            s,
            |t: TaskView| outside_plan(prev)(t) && other_than(x.id)(t),
            outside_plan(plan),
        );
    }
}

proof fn lemma_filter_all(s: Seq<TaskView>)
    ensures
        s.filter(|t: TaskView| true) == s,
    decreases s.len(),
{
    reveal(Seq::filter);
    if s.len() > 0 {
        lemma_filter_all(s.drop_last());
        assert(s.drop_last().push(s.last()) =~= s);
    }
}

/// Grouping keeps exactly the tasks it was given.
pub proof fn lemma_grouped_contains(s: Seq<TaskView>, t: TaskView)
    ensures
        grouped(s).contains(t) <==> s.contains(t),
    decreases s.len(),
{
    if s.len() > 0 {
        let key = s[0].routing_key;
        let tail = s.skip(1);
        let same = tail.filter(routed_to(key));
        let other = tail.filter(routed_elsewhere(key));
        lemma_grouped_contains(other, t);
        let g = seq![s[0]] + same + grouped(other);
        assert(s =~= seq![s[0]] + tail);
        if s.contains(t) {
            if t != s[0] {
                let i = choose|i: int| 0 <= i < s.len() && s[i] == t;
                assert(tail[i - 1] == t);
                if t.routing_key == key {
                    tail.lemma_filter_contains(routed_to(key), i - 1);
                    let j = choose|j: int| 0 <= j < same.len() && same[j] == t;
                    assert((seq![s[0]] + same)[1 + j] == t);
                    assert(g[1 + j] == t);
                } else {
                    tail.lemma_filter_contains(routed_elsewhere(key), i - 1);
                    let j = choose|j: int| 0 <= j < grouped(other).len() && grouped(other)[j]
                        == t;
                    assert(g[1 + same.len() + j] == t);
                }
            } else {
                assert(g[0] == t);
            }
        }
        if g.contains(t) {
            let i = choose|i: int| 0 <= i < g.len() && g[i] == t;
            if i == 0 {
                assert(s[0] == t);
            } else if i < 1 + same.len() {
                assert(same[i - 1] == t);
                assert(same.contains(t));
                tail.lemma_filter_contains_rev(routed_to(key), t);
                let j = choose|j: int| 0 <= j < tail.len() && tail[j] == t;
                assert(s[j + 1] == t);
            } else {
                assert(grouped(other)[i - 1 - same.len()] == t);
                assert(other.contains(t));
                tail.lemma_filter_contains_rev(routed_elsewhere(key), t);
                let j = choose|j: int| 0 <= j < tail.len() && tail[j] == t;
                assert(s[j + 1] == t);
            }
        }
    }
}

/// In a grouped sequence the tasks that share a routing key stand together:
/// between two tasks of one key there is no task of another.
pub proof fn lemma_grouped_contiguous(s: Seq<TaskView>, i: int, j: int, l: int)
    requires
        0 <= i < j < l < grouped(s).len(),
        grouped(s)[i].routing_key == grouped(s)[l].routing_key,
    ensures
        grouped(s)[j].routing_key == grouped(s)[i].routing_key,
    decreases s.len(),
{
    let key = s[0].routing_key;
    let tail = s.skip(1);
    let same = tail.filter(routed_to(key));
    let other = tail.filter(routed_elsewhere(key));
    let rest = grouped(other);
    let g = grouped(s);
    let n = 1 + same.len();
    assert(g == seq![s[0]] + same + rest);
    assert forall|m: int| 0 <= m < n implies #[trigger] g[m].routing_key == key by {
        if m > 0 {
            assert(g[m] == same[m - 1]);
            tail.lemma_filter_pred(routed_to(key), m - 1);
        }
    }
    assert forall|m: int| n <= m < g.len() implies #[trigger] g[m].routing_key != key by {
        let t = g[m];
        assert(rest[m - n] == t);
        assert(rest.contains(t));
        lemma_grouped_contains(other, t);
        let q = choose|q: int| 0 <= q < other.len() && other[q] == t;
        tail.lemma_filter_pred(routed_elsewhere(key), q);
    }
    if n <= i {
        lemma_grouped_contiguous(other, i - n, j - n, l - n);
        assert(g[i] == rest[i - n]);
        assert(g[j] == rest[j - n]);
        assert(g[l] == rest[l - n]);
    }
}

/// One batch at `now` over the store `s`, whatever the bus answers, deletes
/// every task due at `now` and leaves the others as they were, in their
/// order.
pub proof fn lemma_batch_clears_due(s: Seq<TaskView>, now: Timestamp)
    requires
        store_wf(s),
    ensures
        deleted_all(s, grouped(s.filter(due_at(now)))) == s.filter(pending_at(now)),
        forall|i: int|
            0 <= i < deleted_all(s, grouped(s.filter(due_at(now)))).len() ==> !deleted_all(
                s,
                grouped(s.filter(due_at(now))),
            )[i].run_at.spec_le(now),
{
    let due = s.filter(due_at(now));
    let plan = grouped(due);
    lemma_deleted_all(s, plan);
    assert forall|i: int| 0 <= i < s.len() implies outside_plan(plan)(s[i]) == pending_at(now)(
        s[i],
    ) by {
        let t = s[i];
        if t.run_at.spec_le(now) {
            s.lemma_filter_contains(due_at(now), i);
            lemma_grouped_contains(due, t);
            let k = choose|k: int| 0 <= k < plan.len() && plan[k] == t;
            assert(has_id(plan, t.id));
        } else if has_id(plan, t.id) {
            let k = choose|k: int| 0 <= k < plan.len() && plan[k].id == t.id;
            assert(plan.contains(plan[k]));
            lemma_grouped_contains(due, plan[k]);
            let j = choose|j: int| 0 <= j < due.len() && due[j] == plan[k];
            assert(due_at(now)(due[j]));
            assert(due.contains(due[j]));
            s.lemma_filter_contains_rev(due_at(now), due[j]);
            assert(s.contains(due[j]));
            let m = choose|m: int| 0 <= m < s.len() && s[m] == due[j];
            assert(m == i);
        }
    }
    lemma_filter_ext(s, outside_plan(plan), pending_at(now));
    let after = s.filter(pending_at(now));
    assert forall|i: int| 0 <= i < after.len() implies !after[i].run_at.spec_le(now) by {
        assert(pending_at(now)(after[i]));
    }
}

/// Deleting an identifier that was already deleted changes nothing, and
/// the second deletion finds no task.
pub proof fn lemma_delete_twice(s: Seq<TaskView>, id: u128)
    ensures
        deleted(deleted(s, id), id) == deleted(s, id),
        !has_id(deleted(s, id), id),
{
    let once = deleted(s, id);
    assert forall|i: int| 0 <= i < once.len() implies other_than(id)(once[i]) by {}
    lemma_filter_ext(once, other_than(id), |t: TaskView| true);
    lemma_filter_all(once);
}

} // verus!
