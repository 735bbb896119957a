//! The durable store adapter: three isolated namespaces (task definitions,
//! task statuses, task checkpoints) and the operations that encode, persist
//! and read back the engine's records.

use vstd::prelude::*;

use crate::codec::{
    cp_record_bytes, decode_cp_record, decode_checkpoint_record, decode_status_fields,
    decode_status_record, decode_task_record, decode_task_record_take, encode_checkpoint_record,
    encode_status_record, encode_task_record, status_record_bytes, wf_state, wf_task,
};
use crate::kv::KvNamespace;
use crate::tasks::{CheckPoint, EngineError, Task, TaskStatus};
use crate::EngineContext;

verus! {

/// The persistent store: three independent namespaces keyed by task id.
pub struct DurableStore {
    pub tasks: KvNamespace,
    pub statuses: KvNamespace,
    pub checkpoints: KvNamespace,
}

impl DurableStore {
    /// All three namespaces are well-formed.
    pub open spec fn wf(self) -> bool {
        &&& self.tasks.wf()
        &&& self.statuses.wf()
        &&& self.checkpoints.wf()
    }

    /// A fresh store with empty namespaces.
    pub fn new() -> (r: DurableStore)
        ensures
            r.wf(),
            r.tasks.contents() == Map::<Seq<char>, Seq<u8>>::empty(),
            r.statuses.contents() == Map::<Seq<char>, Seq<u8>>::empty(),
            r.checkpoints.contents() == Map::<Seq<char>, Seq<u8>>::empty(),
    {
        let r = DurableStore {
            tasks: KvNamespace::new(),
            statuses: KvNamespace::new(),
            checkpoints: KvNamespace::new(),
        };
        proof {
            assert(r.tasks.contents() =~= Map::<Seq<char>, Seq<u8>>::empty());
            assert(r.statuses.contents() =~= Map::<Seq<char>, Seq<u8>>::empty());
            assert(r.checkpoints.contents() =~= Map::<Seq<char>, Seq<u8>>::empty());
        }
        r
    }
}

/// Reads and decodes the task definition stored under `task_id`.
///
/// Returns `NotFound` exactly when no definition is stored, and `Store`
/// exactly when the stored bytes do not decode.
pub fn get_task(ctx: &EngineContext, task_id: &str) -> (r: Result<Task, EngineError>)
    requires
        ctx.wf(),
    ensures
        match r {
            Ok(t) => ctx.task_ns().contains_key(task_id@) && decode_task_record(
                ctx.task_ns()[task_id@],
            ) == Some(t@),
            Err(e) => {
                &&& e == if !ctx.task_ns().contains_key(task_id@) {
                    EngineError::NotFound
                } else {
                    EngineError::Store
                }
                &&& ctx.task_ns().contains_key(task_id@) ==> decode_task_record(
                    ctx.task_ns()[task_id@],
                ) is None
            },
        },
{
    let key: String = task_id.to_owned();
    match ctx.store.tasks.get(&key) {
        Some(bytes) => match decode_task_record_take(bytes.as_slice()) {
            Some(t) => Ok(t),
            None => Err(EngineError::Store),
        },
        None => Err(EngineError::NotFound),
    }
}

/// Encodes and persists a task definition under its own task id.
pub fn put_task(ctx: &mut EngineContext, task: &Task)
    requires
        old(ctx).wf(),
        wf_task(task@),
    ensures
        final(ctx).wf(),
        final(ctx).task_ns() == old(ctx).task_ns().insert(
            crate::tasks::task_def_of(task@).task_id,
            crate::codec::task_record_bytes(task@),
        ),
        final(ctx).status_ns() == old(ctx).status_ns(),
        final(ctx).cp_ns() == old(ctx).cp_ns(),
        crate::registries_unchanged(*old(ctx), *final(ctx)),
        final(ctx).meta_root@ == old(ctx).meta_root@,
{
    let bytes = encode_task_record(task);
    let key = task.task_id().clone();
    ctx.store.tasks.put(key, bytes);
    proof {
        assert(ctx.task_ns() =~= old(ctx).task_ns().insert(
            crate::tasks::task_def_of(task@).task_id,
            crate::codec::task_record_bytes(task@),
        ));
    }
}

/// Deletes the task definition stored under `task_id`.
pub fn delete_task(ctx: &mut EngineContext, task_id: &str)
    requires
        old(ctx).wf(),
    ensures
        final(ctx).wf(),
        final(ctx).task_ns() == old(ctx).task_ns().remove(task_id@),
        final(ctx).status_ns() == old(ctx).status_ns(),
        final(ctx).cp_ns() == old(ctx).cp_ns(),
        crate::registries_unchanged(*old(ctx), *final(ctx)),
        final(ctx).meta_root@ == old(ctx).meta_root@,
{
    let key: String = task_id.to_owned();
    ctx.store.tasks.delete(&key);
    proof {
        assert(ctx.task_ns() =~= old(ctx).task_ns().remove(task_id@));
    }
}

/// Reads and decodes the checkpoint stored under `task_id`.
///
/// Returns `NotFound` exactly when no checkpoint is stored, and `Store`
/// exactly when the stored bytes do not decode.
pub fn get_checkpoint(ctx: &EngineContext, task_id: &str) -> (r: Result<CheckPoint, EngineError>)
    requires
        ctx.wf(),
    ensures
        match r {
            Ok(cp) => {
                &&& ctx.cp_ns().contains_key(task_id@)
                &&& decode_cp_record(ctx.cp_ns()[task_id@]) == Some(
                    (cp.modify_checkpoint_timestamp, cp.executing_file_position),
                )
                &&& cp.task_id@ == task_id@
            },
            Err(e) => {
                &&& e == if !ctx.cp_ns().contains_key(task_id@) {
                    EngineError::NotFound
                } else {
                    EngineError::Store
                }
                &&& ctx.cp_ns().contains_key(task_id@) ==> decode_cp_record(
                    ctx.cp_ns()[task_id@],
                ) is None
            },
        },
{
    let key: String = task_id.to_owned();
    match ctx.store.checkpoints.get(&key) {
        Some(bytes) => match decode_checkpoint_record(bytes.as_slice()) {
            Some((ts, pos)) => Ok(
                CheckPoint {
                    task_id: key,
                    modify_checkpoint_timestamp: ts,
                    executing_file_position: pos,
                },
            ),
            None => Err(EngineError::Store),
        },
        None => Err(EngineError::NotFound),
    }
}

/// Stamps the checkpoint with `now_secs` and persists it under its task id.
pub fn save_checkpoint_to_cf(ctx: &mut EngineContext, checkpoint: &mut CheckPoint, now_secs: u64)
    requires
        old(ctx).wf(),
    ensures
        final(ctx).wf(),
        final(checkpoint).task_id@ == old(checkpoint).task_id@,
        final(checkpoint).executing_file_position == old(checkpoint).executing_file_position,
        final(checkpoint).modify_checkpoint_timestamp == now_secs as i128,
        final(ctx).cp_ns() == old(ctx).cp_ns().insert(
            old(checkpoint).task_id@,
            cp_record_bytes(now_secs as i128, old(checkpoint).executing_file_position),
        ),
        final(ctx).task_ns() == old(ctx).task_ns(),
        final(ctx).status_ns() == old(ctx).status_ns(),
        crate::registries_unchanged(*old(ctx), *final(ctx)),
        final(ctx).meta_root@ == old(ctx).meta_root@,
{
    checkpoint.modify_checkpoint_timestamp = now_secs as i128;
    let bytes = encode_checkpoint_record(
        checkpoint.modify_checkpoint_timestamp,
        checkpoint.executing_file_position,
    );
    let key = checkpoint.task_id.clone();
    ctx.store.checkpoints.put(key, bytes);
    proof {
        assert(ctx.cp_ns() =~= old(ctx).cp_ns().insert(
            old(checkpoint).task_id@,
            cp_record_bytes(now_secs as i128, old(checkpoint).executing_file_position),
        ));
    }
}

/// Reads and decodes the status record stored under `task_id`.
///
/// Returns `NotFound` exactly when no record is stored, and `Store` exactly
/// when the stored bytes do not decode.
pub fn get_task_status(ctx: &EngineContext, task_id: &str) -> (r: Result<TaskStatus, EngineError>)
    requires
        ctx.wf(),
    ensures
        match r {
            Ok(st) => {
                &&& ctx.status_ns().contains_key(task_id@)
                &&& decode_status_fields(ctx.status_ns()[task_id@]) == Some(
                    (st.start_time, st.status@),
                )
                &&& st.task_id@ == task_id@
            },
            Err(e) => {
                &&& e == if !ctx.status_ns().contains_key(task_id@) {
                    EngineError::NotFound
                } else {
                    EngineError::Store
                }
                &&& ctx.status_ns().contains_key(task_id@) ==> decode_status_fields(
                    ctx.status_ns()[task_id@],
                ) is None
            },
        },
{
    let key: String = task_id.to_owned();
    match ctx.store.statuses.get(&key) {
        Some(bytes) => match decode_status_record(task_id, bytes.as_slice()) {
            Some(st) => Ok(st),
            None => Err(EngineError::Store),
        },
        None => Err(EngineError::NotFound),
    }
}

/// Persists a status record under its task id. When the record is in the
/// `Starting` state its start time is first set to `now_secs`.
pub fn save_task_status(ctx: &mut EngineContext, status: &mut TaskStatus, now_secs: u64)
    requires
        old(ctx).wf(),
        wf_state(old(status).status@),
    ensures
        final(ctx).wf(),
        final(status).task_id@ == old(status).task_id@,
        final(status).status@ == old(status).status@,
        final(status).start_time == if old(status).status@ is Starting {
            now_secs
        } else {
            old(status).start_time
        },
        final(ctx).status_ns() == old(ctx).status_ns().insert(
            old(status).task_id@,
            status_record_bytes(final(status).start_time, old(status).status@),
        ),
        final(ctx).task_ns() == old(ctx).task_ns(),
        final(ctx).cp_ns() == old(ctx).cp_ns(),
        crate::registries_unchanged(*old(ctx), *final(ctx)),
        final(ctx).meta_root@ == old(ctx).meta_root@,
{
    if status.is_starting() {
        status.start_time = now_secs;
    }
    let bytes = encode_status_record(status.start_time, &status.status);
    let key = status.task_id.clone();
    ctx.store.statuses.put(key, bytes);
    proof {
        assert(ctx.status_ns() =~= old(ctx).status_ns().insert(
            old(status).task_id@,
            status_record_bytes(status.start_time, old(status).status@),
        ));
    }
}

/// Reads every status record and keeps those whose task is not `Stopped`.
///
/// Fails with `Store` when some stored record does not decode; otherwise
/// yields exactly the decoded non-stopped statuses.
pub fn living_tasks(ctx: &EngineContext) -> (r: Result<Vec<TaskStatus>, EngineError>)
    requires
        ctx.wf(),
    ensures
        match r {
            Ok(v) => {
                &&& forall|i: int|
                    0 <= i < v@.len() ==> {
                        &&& ctx.status_ns().contains_key((#[trigger] v@[i]).task_id@)
                        &&& decode_status_fields(ctx.status_ns()[v@[i].task_id@]) == Some(
                            (v@[i].start_time, v@[i].status@),
                        )
                        &&& !(v@[i].status@ is Stopped)
                    }
                &&& forall|k: Seq<char>|
                    ctx.status_ns().contains_key(k) && (match decode_status_fields(
                        ctx.status_ns()[k],
                    ) {
                        Some((t, st)) => !(st is Stopped),
                        None => false,
                    }) ==> exists|i: int| 0 <= i < v@.len() && (#[trigger] v@[i]).task_id@ == k
                &&& forall|i: int, j: int|
                    0 <= i < j < v@.len() ==> (#[trigger] v@[i]).task_id@ != (
                    #[trigger] v@[j]).task_id@
            },
            Err(e) => {
                &&& e == EngineError::Store
                &&& exists|k: Seq<char>|
                    #[trigger] ctx.status_ns().contains_key(k) && decode_status_fields(
                        ctx.status_ns()[k],
                    ) is None
            },
        },
{
    let records = ctx.store.statuses.scan();
    let n = records.len();
    let mut out: Vec<TaskStatus> = Vec::new();
    let mut i: usize = 0;
    while i < n
        invariant
            i <= n,
            n == records@.len(),
            ctx.wf(),
            forall|j: int|
                0 <= j < n ==> ctx.status_ns().contains_key((#[trigger] records@[j]).0@)
                    && ctx.status_ns()[records@[j].0@] == records@[j].1@,
            forall|k: Seq<char>|
                ctx.status_ns().contains_key(k) ==> exists|j: int|
                    0 <= j < n && (#[trigger] records@[j]).0@ == k,
            forall|j1: int, j2: int|
                0 <= j1 < j2 < n ==> (#[trigger] records@[j1]).0@ != (#[trigger] records@[j2]).0@,
            forall|j: int|
                0 <= j < out@.len() ==> {
                    &&& ctx.status_ns().contains_key((#[trigger] out@[j]).task_id@)
                    &&& decode_status_fields(ctx.status_ns()[out@[j].task_id@]) == Some(
                        (out@[j].start_time, out@[j].status@),
                    )
                    &&& !(out@[j].status@ is Stopped)
                },
            forall|j: int|
                0 <= j < i ==> (match decode_status_fields(
                    ctx.status_ns()[(#[trigger] records@[j]).0@],
                ) {
                    Some((t, st)) => !(st is Stopped),
                    None => false,
                }) ==> exists|j2: int|
                    0 <= j2 < out@.len() && (#[trigger] out@[j2]).task_id@ == records@[j].0@,
            forall|j1: int, j2: int|
                0 <= j1 < j2 < out@.len() ==> (#[trigger] out@[j1]).task_id@ != (
                #[trigger] out@[j2]).task_id@,
            forall|j: int|
                0 <= j < out@.len() ==> exists|j2: int|
                    0 <= j2 < i && (#[trigger] out@[j]).task_id@ == records@[j2].0@,
        decreases n - i,
    {
        let e = vstd::std_specs::vec::vec_index(&records, i);
        let ghost out0 = out@;
        match decode_status_record(e.0.as_str(), e.1.as_slice()) {
            Some(st) => {
                if !st.is_stopped() {
                    proof {
                        assert forall|j: int| 0 <= j < out@.len() implies (
                        #[trigger] out@[j]).task_id@ != st.task_id@ by {
                            let j2 = choose|j2: int|
                                0 <= j2 < i && (#[trigger] out@[j]).task_id@ == records@[j2].0@;
                        }
                    }
                    out.push(st);
                }
            },
            None => {
                return Err(EngineError::Store);
            },
        }
        proof {
            assert forall|j: int|
                0 <= j < i + 1 && (match decode_status_fields(
                    ctx.status_ns()[(#[trigger] records@[j]).0@],
                ) {
                    Some((t, stv)) => !(stv is Stopped),
                    None => false,
                }) implies exists|j2: int|
                0 <= j2 < out@.len() && (#[trigger] out@[j2]).task_id@ == records@[j].0@ by {
                if j == i as int {
                    assert(out@[out@.len() - 1].task_id@ == records@[j].0@);
                } else {
                    let j2 = choose|j2: int|
                        0 <= j2 < out0.len() && (#[trigger] out0[j2]).task_id@ == records@[j].0@;
                    assert(out@[j2].task_id@ == records@[j].0@);
                }
            }
        }
        i += 1;
    }
    Ok(out)
}

} // verus!
