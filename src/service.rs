//! What a request handler does to schedule a task: store it, then wake the
//! scheduling loop so that it looks again for the earliest due time.
use vstd::prelude::*;

use crate::signal::WaitSignal;
use crate::store::{has_id, insert_position, MemoryStore, StoreError};
use crate::task::Task;

verus! {

/// Stores `task` and, once it is stored, fires the live wait token, if any. Where the
/// store refuses the task the error comes back and the loop is left alone.
pub fn schedule(store: &mut MemoryStore, signal: &mut WaitSignal, task: Task) -> (r: Result<
    (),
    StoreError,
>)
    requires
        old(store).wf(),
        task.wf(),
    ensures
        final(store).wf(),
        r is Err <==> has_id(old(store)@, task.id.0),
        r is Ok ==> final(store)@ == old(store)@.insert(
            insert_position(old(store)@, task.run_at),
            task@,
        ),
        r is Ok ==> final(signal)@.token is None && final(signal)@.minted == old(signal)@.minted,
        r is Ok ==> (old(signal)@.token matches Some(k) ==> final(signal)@.fired == old(
            signal,
        )@.fired.push(k)),
        r is Ok ==> (old(signal)@.token is None ==> final(signal)@.fired == old(signal)@.fired),
        r is Err ==> r->Err_0 == StoreError::DuplicateId && final(store)@ == old(store)@,
        r is Err ==> final(signal)@ == old(signal)@,
{
    match store.insert(task) {
        Ok(()) => {
            signal.interrupt();
            Ok(())
        },
        Err(e) => Err(e),
    }
}

} // verus!
