//! A task store held in memory: the pending tasks ordered by due time, with
//! the queries that the scheduling loop and the batch dispatcher make.
use vstd::prelude::*;

use crate::id::Id;
use crate::task::{views, Task, TaskView};
use crate::time::Timestamp;

verus! {

broadcast use vstd::seq_lib::group_filter_ensures;

/// Holds of the tasks due at `now`.
pub open spec fn due_at(now: Timestamp) -> spec_fn(TaskView) -> bool {
    |t: TaskView| t.run_at.spec_le(now)
}

/// Holds of the tasks not yet due at `now`.
pub open spec fn pending_at(now: Timestamp) -> spec_fn(TaskView) -> bool {
    |t: TaskView| !t.run_at.spec_le(now)
}

/// Holds of the tasks whose identifier is not `id`.
pub open spec fn other_than(id: u128) -> spec_fn(TaskView) -> bool {
    |t: TaskView| t.id != id
}

/// Some task of `s` has identifier `id`.
pub open spec fn has_id(s: Seq<TaskView>, id: u128) -> bool {
    exists|i: int| 0 <= i < s.len() && s[i].id == id
}

/// The tasks of `s` are in ascending order of due time.
pub open spec fn sorted_by_run_at(s: Seq<TaskView>) -> bool {
    forall|i: int, j: int| 0 <= i <= j < s.len() ==> s[i].run_at.spec_le(s[j].run_at)
}

/// No two tasks of `s` share an identifier.
pub open spec fn unique_ids(s: Seq<TaskView>) -> bool {
    forall|i: int, j: int| 0 <= i < s.len() && 0 <= j < s.len() && s[i].id == s[j].id ==> i == j
}

/// What a well-formed store holds: tasks with well-formed due times, in
/// ascending order of due time, one per identifier.
pub open spec fn store_wf(s: Seq<TaskView>) -> bool {
    &&& sorted_by_run_at(s)
    &&& unique_ids(s)
    &&& forall|i: int| 0 <= i < s.len() ==> s[i].run_at.wf()
}

/// The store after deleting the task with identifier `id`, if any.
pub open spec fn deleted(s: Seq<TaskView>, id: u128) -> Seq<TaskView> {
    s.filter(other_than(id))
}

/// Where a task due at `run_at` goes in `s`: after every task due at or
/// before it.
pub open spec fn insert_position(s: Seq<TaskView>, run_at: Timestamp) -> int {
    s.filter(due_at(run_at)).len() as int
}

/// The tasks of `s` with the identifiers `ids`, in the order of `ids`,
/// leaving out identifiers that no task has.
pub open spec fn found(s: Seq<TaskView>, ids: Seq<Id>) -> Seq<TaskView>
    decreases ids.len(),
{
    if ids.len() == 0 {
        Seq::empty()
    } else {
        let rest = found(s, ids.drop_last());
        if has_id(s, ids.last().0) {
            rest.push(s[index_of(s, ids.last().0)])
        } else {
            rest
        }
    }
}

/// The position of the task with identifier `id` in `s`, where there is one.
pub open spec fn index_of(s: Seq<TaskView>, id: u128) -> int {
    choose|i: int| 0 <= i < s.len() && s[i].id == id
}

/// Why the store refused a write.
#[derive(Clone, Copy, Debug, PartialEq, Eq, Structural)]
pub enum StoreError {
    /// A task with the same identifier is already pending.
    DuplicateId,
}

/// Pending tasks, in ascending order of due time.
pub struct MemoryStore {
    tasks: Vec<Task>,
}

impl View for MemoryStore {
    type V = Seq<TaskView>;

    closed spec fn view(&self) -> Seq<TaskView> {
        views(self.tasks@)
    }
}

/// In a sorted `s` whose first `i` tasks are due at `now` and whose task at
/// `i` (if any) is not, the due tasks are the first `i` and the others the
/// rest.
pub proof fn lemma_due_prefix(s: Seq<TaskView>, now: Timestamp, i: int)
    requires
        sorted_by_run_at(s),
        0 <= i <= s.len(),
        forall|j: int| 0 <= j < i ==> s[j].run_at.spec_le(now),
        i < s.len() ==> !s[i].run_at.spec_le(now),
    ensures
        s.filter(due_at(now)) == s.take(i),
        s.filter(pending_at(now)) == s.skip(i),
    decreases s.len(),
{
    reveal(Seq::filter);
    if s.len() == 0 {
        assert(s.take(i) =~= s);
        assert(s.skip(i) =~= s);
    } else if i == s.len() {
        lemma_due_prefix(s.drop_last(), now, i - 1);
        assert(s.drop_last().take(i - 1).push(s.last()) =~= s.take(i));
        assert(s.drop_last().skip(i - 1) =~= s.skip(i));
    } else {
        assert(s[i].run_at.spec_le(s.last().run_at));
        assert(!s.last().run_at.spec_le(now));
        lemma_due_prefix(s.drop_last(), now, i);
        assert(s.drop_last().take(i) =~= s.take(i));
        assert(s.drop_last().skip(i).push(s.last()) =~= s.skip(i));
    }
}

/// Deleting the task at `k` of a store with unique identifiers is deleting
/// by its identifier.
proof fn lemma_remove_is_deleted(s: Seq<TaskView>, k: int)
    requires
        unique_ids(s),
        0 <= k < s.len(),
    ensures
        s.remove(k) == deleted(s, s[k].id),
    decreases s.len(),
{
    reveal(Seq::filter);
    let id = s[k].id;
    if k == s.len() - 1 {
        lemma_filter_keeps_all(s.drop_last(), other_than(id));
        assert(s.remove(k) =~= s.drop_last());
    } else {
        let d = s.drop_last();
        assert(unique_ids(d));
        assert(d[k].id == id);
        lemma_remove_is_deleted(d, k);
        assert(s.last().id != id);
        assert(s.remove(k) =~= d.remove(k).push(s.last()));
    }
}

/// A filter that every element passes keeps the sequence as it is.
proof fn lemma_filter_keeps_all(s: Seq<TaskView>, p: spec_fn(TaskView) -> bool)
    requires
        forall|i: int| 0 <= i < s.len() ==> p(s[i]),
    ensures
        s.filter(p) == s,
    decreases s.len(),
{
    reveal(Seq::filter);
    if s.len() > 0 {
        lemma_filter_keeps_all(s.drop_last(), p);
        assert(s.drop_last().push(s.last()) =~= s);
    }
}

impl MemoryStore {
    pub open spec fn wf(&self) -> bool {
        store_wf(self@)
    }

    /// An empty store.
    pub fn new() -> (r: MemoryStore)
        ensures
            r.wf(),
            r@ == Seq::<TaskView>::empty(),
    {
        let r = MemoryStore { tasks: Vec::new() };
        assert(r@ =~= Seq::<TaskView>::empty());
        r
    }

    /// The number of pending tasks.
    pub fn count(&self) -> (r: usize)
        ensures
            r == self@.len(),
    {
        self.tasks.len()
    }

    /// Adds `task`, after every pending task due at or before it; refused
    /// where a task with its identifier is already pending.
    pub fn insert(&mut self, task: Task) -> (r: Result<(), StoreError>)
        requires
            old(self).wf(),
            task.wf(),
        ensures
            final(self).wf(),
            r is Err <==> has_id(old(self)@, task.id.0),
            r is Err ==> r == Err::<(), StoreError>(StoreError::DuplicateId) && final(self)@ == old(
                self,
            )@,
            r is Ok ==> final(self)@ == old(self)@.insert(
                insert_position(old(self)@, task.run_at),
                task@,
            ),
    {
        let ghost s = self@;
        let n: usize = self.tasks.len();
        let mut i: usize = 0;
        while i < n
            invariant
                n == s.len(),
                s == self@,
                store_wf(s),
                i <= n,
                forall|j: int| 0 <= j < i ==> s[j].id != task.id.0,
            decreases n - i,
        {
            if self.tasks[i].id == task.id {
                assert(s[i as int].id == task.id.0);
                return Err(StoreError::DuplicateId);
            }
            i = i + 1;
        }
        let mut p: usize = 0;
        while p < n && self.tasks[p].run_at.le(&task.run_at)
            invariant
                n == s.len(),
                s == self@,
                store_wf(s),
                p <= n,
                forall|j: int| 0 <= j < p ==> s[j].run_at.spec_le(task.run_at),
            decreases n - p,
        {
            p = p + 1;
        }
        proof {
            assert(p < n ==> s[p as int] == self.tasks@[p as int]@);
            lemma_due_prefix(s, task.run_at, p as int);
        }
        let ghost t = task@;
        self.tasks.insert(p, task);
        proof {
            let f = self@;
            assert(f =~= s.insert(p as int, t));
            assert forall|a: int, b: int| 0 <= a <= b < f.len() implies f[a].run_at.spec_le(
                f[b].run_at,
            ) by {
                if a < p && b > p {
                    assert(s[a].run_at.spec_le(t.run_at));
                    assert(f[b] == s[b - 1]);
                    assert(s[a].run_at.spec_le(s[b - 1].run_at));
                }
            }
        }
        Ok(())
    }

    /// Deletes the task with identifier `id`; says whether there was one. A
    /// second deletion of the same identifier changes nothing.
    pub fn delete(&mut self, id: Id) -> (r: bool)
        requires
            old(self).wf(),
        ensures
            final(self).wf(),
            r == has_id(old(self)@, id.0),
            final(self)@ == deleted(old(self)@, id.0),
    {
        let ghost s = self@;
        let n: usize = self.tasks.len();
        let mut i: usize = 0;
        while i < n
            invariant
                n == s.len(),
                s == self@,
                s == old(self)@,
                store_wf(s),
                i <= n,
                forall|j: int| 0 <= j < i ==> s[j].id != id.0,
            decreases n - i,
        {
            if self.tasks[i].id == id {
                let _removed = self.tasks.remove(i);
                proof {
                    assert(s[i as int].id == id.0);
                    assert(self@ =~= s.remove(i as int));
                    lemma_remove_is_deleted(s, i as int);
                }
                return true;
            }
            i = i + 1;
        }
        proof {
            assert forall|j: int| 0 <= j < s.len() implies other_than(id.0)(s[j]) by {}
            lemma_filter_keeps_all(s, other_than(id.0));
        }
        false
    }

    /// The due time of the earliest pending task, or `None` where none is
    /// pending.
    pub fn earliest_run_at(&self) -> (r: Option<Timestamp>)
        requires
            self.wf(),
        ensures
            r is None <==> self@.len() == 0,
            r is Some ==> r->0 == self@[0].run_at,
            r is Some ==> forall|i: int| 0 <= i < self@.len() ==> r->0.spec_le(self@[i].run_at),
    {
        if self.tasks.len() == 0 {
            None
        } else {
            Some(self.tasks[0].run_at)
        }
    }

    /// Copies of the tasks due at `now`, in ascending order of due time.
    pub fn select_due(&self, now: &Timestamp) -> (r: Vec<Task>)
        requires
            self.wf(),
        ensures
            views(r@) == self@.filter(due_at(*now)),
            sorted_by_run_at(views(r@)),
    {
        let ghost s = self@;
        let n: usize = self.tasks.len();
        let mut out: Vec<Task> = Vec::new();
        let mut i: usize = 0;
        while i < n && self.tasks[i].run_at.le(now)
            invariant
                n == s.len(),
                s == self@,
                store_wf(s),
                i <= n,
                forall|j: int| 0 <= j < i ==> s[j].run_at.spec_le(*now),
                views(out@) == s.take(i as int),
            decreases n - i,
        {
            let t = self.tasks[i].duplicate();
            let ghost o = out@;
            assert(t@ == s[i as int]);
            out.push(t);
            assert(views(out@) =~= views(o).push(s[i as int]));
            i = i + 1;
            assert(views(out@) =~= s.take(i as int));
        }
        proof {
            assert(i < n ==> s[i as int] == self.tasks@[i as int]@);
            lemma_due_prefix(s, *now, i as int);
        }
        out
    }

    /// A copy of the task with identifier `id`, or `None` where none is
    /// pending.
    pub fn get(&self, id: Id) -> (r: Option<Task>)
        requires
            self.wf(),
        ensures
            r is Some <==> has_id(self@, id.0),
            r is Some ==> r->0@ == self@[index_of(self@, id.0)],
    {
        let ghost s = self@;
        let n: usize = self.tasks.len();
        let mut i: usize = 0;
        while i < n
            invariant
                n == s.len(),
                s == self@,
                store_wf(s),
                i <= n,
                forall|j: int| 0 <= j < i ==> s[j].id != id.0,
            decreases n - i,
        {
            if self.tasks[i].id == id {
                assert(s[i as int].id == id.0);
                assert(index_of(s, id.0) == i);
                return Some(self.tasks[i].duplicate());
            }
            i = i + 1;
        }
        None
    }

    /// Copies of the tasks with the identifiers `ids`, in their order,
    /// leaving out those that are not pending.
    pub fn get_many(&self, ids: &Vec<Id>) -> (r: Vec<Task>)
        requires
            self.wf(),
        ensures
            views(r@) == found(self@, ids@),
    {
        let mut out: Vec<Task> = Vec::new();
        let mut i: usize = 0;
        while i < ids.len()
            invariant
                self.wf(),
                i <= ids@.len(),
                views(out@) == found(self@, ids@.take(i as int)),
            decreases ids@.len() - i,
        {
            let ghost o = out@;
            assert(ids@.take(i + 1).drop_last() =~= ids@.take(i as int));
            match self.get(ids[i]) {
                Some(t) => {
                    out.push(t);
                    assert(views(out@) =~= views(o).push(out@.last()@));
                },
                None => {},
            }
            i = i + 1;
        }
        assert(ids@.take(i as int) =~= ids@);
        out
    }
}

} // verus!
