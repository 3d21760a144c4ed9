use task_scheduler::id::Id;
use task_scheduler::request::{build_task, parse_run_at, parse_task_id, parse_task_ids, schedule_request, RequestError};
use task_scheduler::task::{decode_rows, TaskRow};
use task_scheduler::time::Timestamp;

#[test]
fn id_reads_big_endian_bytes() {
    let mut bytes = vec![0u8; 16];
    bytes[15] = 1;
    bytes[14] = 2;
    assert_eq!(Id::from_bytes(&bytes), Some(Id(0x0201)));
    let mut high = vec![0u8; 16];
    high[0] = 0x80;
    assert_eq!(Id::from_bytes(&high), Some(Id(1u128 << 127)));
    assert_eq!(Id::from_bytes(&[1, 2, 3]), None);
    assert_eq!(Id::from_bytes(&[0u8; 17]), None);
}

#[test]
fn id_bytes_round_trip() {
    let id = Id(0x0123_4567_89ab_cdef_0011_2233_4455_6677);
    let bytes = id.to_bytes();
    assert_eq!(bytes[0], 0x01);
    assert_eq!(bytes[15], 0x77);
    assert_eq!(Id::from_bytes(&bytes), Some(id));
}

#[test]
fn generated_ids_differ() {
    let a = Id::generate();
    let b = Id::generate();
    assert_ne!(a, b);
    assert_eq!(a.to_bytes().len(), 16);
}

#[test]
fn run_at_is_required_and_checked() {
    assert_eq!(parse_run_at(None), Err(RequestError::MissingRunAt));
    assert_eq!(parse_run_at(Some((1_431_648_000, 5))), Ok(Timestamp { secs: 1_431_648_000, nanos: 5 }));
    assert_eq!(parse_run_at(Some((10, -1))), Err(RequestError::InvalidTimestamp));
    assert_eq!(parse_run_at(Some((10, 1_000_000_000))), Err(RequestError::InvalidTimestamp));
    assert_eq!(parse_run_at(Some((59, 1_500_000_000))), Ok(Timestamp { secs: 59, nanos: 1_500_000_000 }));
    assert_eq!(parse_run_at(Some((59, 2_000_000_000))), Err(RequestError::InvalidTimestamp));
    assert_eq!(parse_run_at(Some((i64::MAX, 0))), Err(RequestError::InvalidTimestamp));
    assert_eq!(parse_run_at(Some((i64::MIN, 0))), Err(RequestError::InvalidTimestamp));
}

#[test]
fn run_at_accepts_exactly_chrono_dates() {
    let last = 8_210_266_876_799i64;
    let first = -8_334_601_228_800i64;
    assert_eq!(Timestamp::from_unix(last, 0), Some(Timestamp { secs: last, nanos: 0 }));
    assert_eq!(Timestamp::from_unix(last + 1, 0), None);
    assert_eq!(Timestamp::from_unix(first, 0), Some(Timestamp { secs: first, nanos: 0 }));
    assert_eq!(Timestamp::from_unix(first - 1, 0), None);
}

#[test]
fn schedule_request_builds_the_task() {
    let t = build_task(Id(7), "ex".to_string(), "rk".to_string(), Some((100, 0)), vec![1, 2]).unwrap();
    assert_eq!(t.id, Id(7));
    assert_eq!(t.exchange.as_deref(), Some("ex"));
    assert_eq!(t.exchange_name(), "ex");
    assert_eq!(t.routing_key, "rk");
    assert_eq!(t.run_at, Timestamp { secs: 100, nanos: 0 });
    assert_eq!(t.payload, vec![1, 2]);
    let r = schedule_request("".to_string(), "rk".to_string(), None, Vec::new());
    assert_eq!(r.err(), Some(RequestError::MissingRunAt));
    let fresh = schedule_request("".to_string(), "rk".to_string(), Some((5, 0)), Vec::new()).unwrap();
    assert_eq!(fresh.exchange_name(), "");
    assert_eq!(fresh.run_at, Timestamp { secs: 5, nanos: 0 });
}

#[test]
fn task_ids_are_checked_for_length() {
    assert_eq!(parse_task_id(&[0u8; 15]), Err(RequestError::InvalidTaskId));
    let mut one = vec![0u8; 16];
    one[15] = 9;
    assert_eq!(parse_task_id(&one), Ok(Id(9)));
    assert_eq!(parse_task_ids(&vec![one.clone(), vec![0u8; 16]]), Ok(vec![Id(9), Id(0)]));
    assert_eq!(parse_task_ids(&vec![one, vec![1u8; 3]]), Err(RequestError::InvalidTaskId));
}

#[test]
fn rows_with_bad_ids_are_dropped() {
    let row = |id: Vec<u8>, key: &str| TaskRow {
        id,
        exchange: None,
        routing_key: key.to_string(),
        run_at: Timestamp { secs: 1, nanos: 0 },
        payload: vec![3],
    };
    let mut good = vec![0u8; 16];
    good[15] = 4;
    let tasks = decode_rows(vec![row(good, "a"), row(vec![1, 2], "b"), row(vec![0u8; 16], "c")]);
    assert_eq!(tasks.len(), 2);
    assert_eq!(tasks[0].id, Id(4));
    assert_eq!(tasks[0].routing_key, "a");
    assert_eq!(tasks[1].id, Id(0));
    assert_eq!(tasks[1].exchange_name(), "");
}

#[test]
fn timestamps_order_by_seconds_then_nanos() {
    let a = Timestamp { secs: 1, nanos: 999 };
    let b = Timestamp { secs: 2, nanos: 0 };
    assert!(a.le(&b));
    assert!(!b.le(&a));
    assert!(a.le(&a));
    assert!(Timestamp::now().secs > 1_600_000_000);
    assert_eq!(Timestamp::from_unix(0, 0), Some(Timestamp { secs: 0, nanos: 0 }));
}
