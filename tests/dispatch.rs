use task_scheduler::dispatch::{group_by_routing_key, Batch};
use task_scheduler::id::Id;
use task_scheduler::store::{MemoryStore, StoreError};
use task_scheduler::task::Task;
use task_scheduler::time::Timestamp;

fn at(secs: i64) -> Timestamp {
    Timestamp { secs, nanos: 0 }
}

fn task(id: u128, key: &str, secs: i64) -> Task {
    Task {
        id: Id(id),
        exchange: None,
        routing_key: key.to_string(),
        run_at: at(secs),
        payload: vec![id as u8],
    }
}

/// Runs one batch at `now` against `store`; `accept` says what the bus
/// answers for each task id. Returns (ids in dispatch order, succeeded, failed).
fn run_batch(store: &mut MemoryStore, now: Timestamp, accept: &dyn Fn(u128) -> bool) -> (Vec<u128>, usize, usize) {
    let due = store.select_due(&now);
    let mut batch = Batch::plan(due);
    let mut order = Vec::new();
    while let Some(t) = batch.current() {
        let ok = accept(t.id.0);
        order.push(t.id.0);
        let id = batch.record(ok);
        store.delete(id);
    }
    assert!(batch.is_done());
    assert_eq!(batch.processed(), order.len());
    (order, batch.succeeded(), batch.failed())
}

fn store_with(tasks: Vec<Task>) -> MemoryStore {
    let mut store = MemoryStore::new();
    for t in tasks {
        assert_eq!(store.insert(t), Ok(()));
    }
    store
}

#[test]
fn due_tasks_leave_the_store_whatever_the_bus_says() {
    let mut store = store_with(vec![
        task(1, "a", 100),
        task(2, "b", 90),
        task(3, "a", 200),
        task(4, "c", 100),
    ]);
    let (order, ok, failed) = run_batch(&mut store, at(150), &|id| id != 2);
    assert_eq!(order.len(), 3);
    assert_eq!((ok, failed), (2, 1));
    assert_eq!(store.count(), 1);
    assert!(store.select_due(&at(150)).is_empty());
}

#[test]
fn tasks_not_yet_due_are_left_untouched() {
    let mut store = store_with(vec![task(1, "a", 100), task(2, "a", 300), task(3, "b", 400)]);
    run_batch(&mut store, at(100), &|_| true);
    assert_eq!(store.count(), 2);
    let left = store.get(Id(2)).unwrap();
    assert_eq!(left.routing_key, "a");
    assert_eq!(left.run_at, at(300));
    assert_eq!(left.payload, vec![2u8]);
    assert!(store.get(Id(3)).is_some());
    assert_eq!(store.earliest_run_at(), Some(at(300)));
}

#[test]
fn deleting_twice_is_a_no_op() {
    let mut store = store_with(vec![task(1, "a", 100), task(2, "a", 300)]);
    assert!(store.delete(Id(1)));
    assert!(!store.delete(Id(1)));
    assert_eq!(store.count(), 1);
    assert!(store.get(Id(2)).is_some());
}

#[test]
fn same_routing_key_is_dispatched_together() {
    let mut store = store_with(vec![
        task(1, "orders", 10),
        task(2, "mail", 20),
        task(3, "orders", 30),
        task(4, "mail", 40),
    ]);
    let (order, ok, failed) = run_batch(&mut store, at(50), &|_| true);
    assert_eq!(order, vec![1, 3, 2, 4]);
    assert_eq!((ok, failed), (4, 0));
    assert_eq!(store.count(), 0);
}

#[test]
fn one_refused_publish_does_not_stop_the_batch() {
    let mut store = store_with(vec![task(1, "a", 10), task(2, "b", 20), task(3, "c", 30)]);
    let (order, ok, failed) = run_batch(&mut store, at(30), &|id| id != 2);
    assert_eq!(order, vec![1, 2, 3]);
    assert_eq!(ok, 2);
    assert_eq!(failed, 1);
    assert!(store.get(Id(2)).is_none());
    assert_eq!(store.count(), 0);
}

#[test]
fn grouping_keeps_order_within_groups() {
    let tasks = vec![task(5, "x", 1), task(6, "y", 2), task(7, "x", 3), task(8, "z", 4), task(9, "y", 5)];
    let ids: Vec<u128> = group_by_routing_key(tasks).iter().map(|t| t.id.0).collect();
    assert_eq!(ids, vec![5, 7, 6, 9, 8]);
    assert!(group_by_routing_key(Vec::new()).is_empty());
}

#[test]
fn batch_over_nothing_is_done_at_once() {
    let batch = Batch::plan(Vec::new());
    assert!(batch.current().is_none());
    assert!(batch.is_done());
    assert_eq!(batch.len(), 0);
}

#[test]
fn store_keeps_due_order_and_refuses_duplicates() {
    let mut store = store_with(vec![task(1, "a", 300), task(2, "a", 100), task(3, "a", 200), task(4, "a", 100)]);
    assert_eq!(store.insert(task(3, "b", 5)), Err(StoreError::DuplicateId));
    let due: Vec<u128> = store.select_due(&at(1000)).iter().map(|t| t.id.0).collect();
    assert_eq!(due, vec![2, 4, 3, 1]);
    assert_eq!(store.earliest_run_at(), Some(at(100)));
    let due_at_200: Vec<u128> = store.select_due(&at(200)).iter().map(|t| t.id.0).collect();
    assert_eq!(due_at_200, vec![2, 4, 3]);
    assert_eq!(MemoryStore::new().earliest_run_at(), None);
}

#[test]
fn get_many_returns_found_tasks_in_request_order() {
    let store = store_with(vec![task(1, "a", 10), task(2, "b", 20), task(3, "c", 30)]);
    let got: Vec<u128> = store.get_many(&vec![Id(3), Id(9), Id(1)]).iter().map(|t| t.id.0).collect();
    assert_eq!(got, vec![3, 1]);
}
