//! Checks on what callers send to schedule, cancel and fetch tasks, before
//! anything reaches the store.
use vstd::prelude::*;

use crate::id::{be_value, Id, ID_LEN};
use crate::task::Task;
use crate::time::{secs_in_date_range, valid_unix_parts, Timestamp};

verus! {

/// Why a request was refused.
#[derive(Clone, Copy, Debug, PartialEq, Eq, Structural)]
pub enum RequestError {
    /// The request gave no due time.
    MissingRunAt,
    /// The due time names no instant.
    InvalidTimestamp,
    /// A task identifier is not sixteen bytes long.
    InvalidTaskId,
}

/// The due time `secs` seconds and `nanos` nanoseconds after the epoch
/// names an instant.
pub open spec fn valid_run_at(secs: i64, nanos: i32) -> bool {
    nanos >= 0 && valid_unix_parts(secs as int, nanos as int)
}

/// The due time of a request, as seconds and nanoseconds since the epoch.
pub fn parse_run_at(run_at: Option<(i64, i32)>) -> (r: Result<Timestamp, RequestError>)
    ensures
        match run_at {
            None => r == Err::<Timestamp, RequestError>(RequestError::MissingRunAt),
            Some((secs, nanos)) => {
                &&& r is Ok ==> r->Ok_0 == (Timestamp {
                    secs,
                    nanos: nanos as u32,
                }) && r->Ok_0.wf()
                &&& r is Err ==> r == Err::<Timestamp, RequestError>(
                    RequestError::InvalidTimestamp,
                )
                &&& valid_run_at(secs, nanos) && secs_in_date_range(secs as int) <==> r is Ok
            },
        },
{
    match run_at {
        None => Err(RequestError::MissingRunAt),
        Some((secs, nanos)) => {
            if nanos < 0 {
                return Err(RequestError::InvalidTimestamp);
            }
            match Timestamp::from_unix(secs, nanos as u32) {
                Some(t) => Ok(t),
                None => Err(RequestError::InvalidTimestamp),
            }
        },
    }
}

/// The task that a schedule request asks for, under the identifier `id`.
/// The request always names an exchange, possibly the empty one.
pub fn build_task(
    id: Id,
    exchange: String,
    routing_key: String,
    run_at: Option<(i64, i32)>,
    payload: Vec<u8>,
) -> (r: Result<Task, RequestError>)
    ensures
        match run_at {
            None => r is Err && r->Err_0 == RequestError::MissingRunAt,
            Some((secs, nanos)) => {
                                &&& r is Err ==> r->Err_0 == RequestError::InvalidTimestamp
                &&& valid_run_at(secs, nanos) && secs_in_date_range(secs as int) <==> r is Ok
                &&& r is Ok ==> {
                    &&& r->Ok_0.id == id
                    &&& r->Ok_0.exchange == Some(exchange)
                    &&& r->Ok_0.routing_key == routing_key
                    &&& r->Ok_0.run_at == (Timestamp { secs, nanos: nanos as u32 })
                    &&& r->Ok_0.run_at.wf()
                    &&& r->Ok_0.payload == payload
                }
            },
        },
{
    match parse_run_at(run_at) {
        Ok(t) => Ok(Task { id, exchange: Some(exchange), routing_key, run_at: t, payload }),
        Err(e) => Err(e),
    }
}

/// The task that a schedule request asks for, under a fresh identifier.
pub fn schedule_request(
    exchange: String,
    routing_key: String,
    run_at: Option<(i64, i32)>,
    payload: Vec<u8>,
) -> (r: Result<Task, RequestError>)
    ensures
        match run_at {
            None => r is Err && r->Err_0 == RequestError::MissingRunAt,
            Some((secs, nanos)) => {
                                &&& r is Err ==> r->Err_0 == RequestError::InvalidTimestamp
                &&& valid_run_at(secs, nanos) && secs_in_date_range(secs as int) <==> r is Ok
                &&& r is Ok ==> {
                    &&& r->Ok_0.exchange == Some(exchange)
                    &&& r->Ok_0.routing_key == routing_key
                    &&& r->Ok_0.run_at == (Timestamp { secs, nanos: nanos as u32 })
                    &&& r->Ok_0.run_at.wf()
                    &&& r->Ok_0.payload == payload
                }
            },
        },
{
    build_task(Id::generate(), exchange, routing_key, run_at, payload)
}

/// The identifier in a request, refused unless it is sixteen bytes long.
pub fn parse_task_id(bytes: &[u8]) -> (r: Result<Id, RequestError>)
    ensures
        r is Ok <==> bytes@.len() == ID_LEN,
        r is Ok ==> (r->Ok_0).0 == be_value(bytes@),
        r is Err ==> r->Err_0 == RequestError::InvalidTaskId,
{
    match Id::from_bytes(bytes) {
        Some(id) => Ok(id),
        None => Err(RequestError::InvalidTaskId),
    }
}

/// The identifiers in a request for many tasks, in order; refused as a whole
/// if any of them is not sixteen bytes long.
pub fn parse_task_ids(ids: &Vec<Vec<u8>>) -> (r: Result<Vec<Id>, RequestError>)
    ensures
        r is Ok <==> forall|i: int| 0 <= i < ids@.len() ==> ids@[i]@.len() == ID_LEN,
        r is Ok ==> r->Ok_0@.len() == ids@.len() && forall|i: int|
            0 <= i < ids@.len() ==> (#[trigger] r->Ok_0@[i]).0 == be_value(ids@[i]@),
        r is Err ==> r->Err_0 == RequestError::InvalidTaskId,
{
    let mut out: Vec<Id> = Vec::new();
    let mut i: usize = 0;
    while i < ids.len()
        invariant
            i <= ids@.len(),
            out@.len() == i,
            forall|j: int| 0 <= j < i ==> ids@[j]@.len() == ID_LEN,
            forall|j: int| 0 <= j < i ==> (#[trigger] out@[j]).0 == be_value(ids@[j]@),
        decreases ids@.len() - i,
    {
        match parse_task_id(ids[i].as_slice()) {
            Ok(id) => out.push(id),
            Err(e) => return Err(e),
        }
        i = i + 1;
    }
    Ok(out)
}

} // verus!
