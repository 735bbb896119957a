//! The service layer consumed by the control plane: create, update, start,
//! stop, show, list and remove tasks, and read back their checkpoints.

use vstd::prelude::*;
use vstd::string::{StrSliceExecFns, StringExecFns};

use crate::codec::{decode_task_record, task_record_bytes, wf_str};
use crate::store::{delete_task, get_checkpoint, get_task, put_task};
use crate::task_server::{register_exec_joinset, register_stop_flag, task_is_living};
use crate::tasks::{
    task_def_of, CheckPoint, EngineError, Task, TaskDefV, TaskLifeState, TaskStatus,
    TransferTaskStatus, TransferTaskStatusV,
};
use crate::{persisted_unchanged, registries_unchanged, EngineContext};

verus! {

/// The characters of a path assembled from a directory, a file name and a
/// suffix.
pub open spec fn file_path_chars(dir: Seq<char>, file: Seq<char>, suffix: Seq<char>) -> Seq<char> {
    dir + seq!['/'] + file + suffix
}

/// Joins a directory, a file name and a suffix into one path.
pub fn gen_file_path(dir: &str, file_name: &str, suffix: &str) -> (r: String)
    ensures
        r@ == file_path_chars(dir@, file_name@, suffix@),
{
    let mut out = String::new();
    out.append(dir);
    out.append("/");
    out.append(file_name);
    out.append(suffix);
    proof {
        reveal_strlit("/");
        assert(("/")@ =~= seq!['/']);
        assert(out@ =~= file_path_chars(dir@, file_name@, suffix@));
    }
    out
}

/// Whether the string can be carried by the record format.
fn check_wf_str(s: &str) -> (r: bool)
    ensures
        r == wf_str(s@),
{
    let _n: usize = s.unicode_len();
    s.is_ascii()
}

/// A definition a caller may create or update: a non-empty task id, and
/// fields the record format can carry.
pub open spec fn def_valid(d: TaskDefV) -> bool {
    &&& d.task_id.len() > 0
    &&& wf_str(d.task_id)
    &&& wf_str(d.source)
    &&& wf_str(d.target)
}

proof fn lemma_path_wf(dir: Seq<char>, file: Seq<char>, md: Seq<char>)
    requires
        wf_str(dir),
        wf_str(file),
        md == file_path_chars(dir, file, Seq::<char>::empty()),
        md.len() < 0x10000000000000000,
    ensures
        wf_str(md),
{
    assert(md =~= dir + seq!['/'] + file + Seq::<char>::empty());
    assert forall|i2: int| 0 <= i2 < md.len() implies '\0' <= #[trigger] md[i2] <= '\u{7f}' by {
        if i2 < dir.len() {
            assert(md[i2] == dir[i2]);
        } else if i2 == dir.len() {
            assert(md[i2] == '/');
        } else {
            assert(md[i2] == file[i2 - dir.len() - 1]);
        }
    }
}

fn check_def_valid(task: &Task) -> (r: bool)
    ensures
        r == def_valid(task_def_of(task@)),
{
    let d = task.def();
    !d.task_id.as_str().is_empty() && check_wf_str(d.task_id.as_str()) && check_wf_str(
        d.source.as_str(),
    ) && check_wf_str(d.target.as_str())
}

/// Validates the definition, derives its metadata directory under the
/// engine's metadata root, persists it, and yields the task id.
///
/// Fails with `Validation`, changing nothing, exactly when the definition is
/// malformed (empty task id, or a field the record format cannot carry) or
/// the metadata root itself cannot stand in a record.
pub fn service_task_create(ctx: &mut EngineContext, task: &mut Task) -> (r: Result<
    String,
    EngineError,
>)
    requires
        old(ctx).wf(),
    ensures
        final(ctx).wf(),
        match r {
            Ok(id) => {
                &&& def_valid(task_def_of(old(task)@)) && wf_str(old(ctx).meta_root@)
                &&& id@ == task_def_of(old(task)@).task_id
                &&& task_def_of(final(task)@) == (TaskDefV {
                    meta_dir: file_path_chars(old(ctx).meta_root@, id@, Seq::empty()),
                    ..task_def_of(old(task)@)
                })
                &&& (final(task)@ is Transfer <==> old(task)@ is Transfer)
                &&& final(ctx).task_ns() == old(ctx).task_ns().insert(
                    id@,
                    task_record_bytes(final(task)@),
                )
                &&& final(ctx).status_ns() == old(ctx).status_ns()
                &&& final(ctx).cp_ns() == old(ctx).cp_ns()
                &&& registries_unchanged(*old(ctx), *final(ctx))
                &&& final(ctx).meta_root@ == old(ctx).meta_root@
            },
            Err(e) => {
                &&& e == EngineError::Validation
                &&& !(def_valid(task_def_of(old(task)@)) && wf_str(old(ctx).meta_root@))
                &&& *final(ctx) == *old(ctx)
                &&& *final(task) == *old(task)
            },
        },
{
    if !check_def_valid(task) || !check_wf_str(ctx.meta_root.as_str()) {
        return Err(EngineError::Validation);
    }
    let id = task.task_id().clone();
    let meta_dir = gen_file_path(ctx.meta_root.as_str(), id.as_str(), "");
    let _md_len: usize = meta_dir.as_str().unicode_len();
    task.set_meta_dir(meta_dir.as_str());
    proof {
        reveal_strlit("");
        assert(("")@ =~= Seq::<char>::empty());
        lemma_path_wf(old(ctx).meta_root@, id@, meta_dir@);
        assert(wf_str(task_def_of(task@).meta_dir));
    }
    put_task(ctx, task);
    Ok(id)
}

/// Rewrites the stored definition under `task_id`: the definition's id and
/// metadata directory are first overwritten from the given id and the
/// engine's metadata root.
///
/// Fails with `Validation`, changing nothing, exactly when the given id is
/// empty, a field cannot stand in a record, or the metadata root cannot.
pub fn service_update_task(ctx: &mut EngineContext, task_id: &str, task: &mut Task) -> (r: Result<
    (),
    EngineError,
>)
    requires
        old(ctx).wf(),
    ensures
        final(ctx).wf(),
        match r {
            Ok(()) => {
                &&& task_id@.len() > 0 && wf_str(task_id@) && wf_str(
                    task_def_of(old(task)@).source,
                ) && wf_str(task_def_of(old(task)@).target) && wf_str(old(ctx).meta_root@)
                &&& task_def_of(final(task)@) == (TaskDefV {
                    task_id: task_id@,
                    meta_dir: file_path_chars(old(ctx).meta_root@, task_id@, Seq::empty()),
                    ..task_def_of(old(task)@)
                })
                &&& (final(task)@ is Transfer <==> old(task)@ is Transfer)
                &&& final(ctx).task_ns() == old(ctx).task_ns().insert(
                    task_id@,
                    task_record_bytes(final(task)@),
                )
                &&& final(ctx).status_ns() == old(ctx).status_ns()
                &&& final(ctx).cp_ns() == old(ctx).cp_ns()
                &&& registries_unchanged(*old(ctx), *final(ctx))
                &&& final(ctx).meta_root@ == old(ctx).meta_root@
            },
            Err(e) => {
                &&& e == EngineError::Validation
                &&& !(task_id@.len() > 0 && wf_str(task_id@) && wf_str(
                    task_def_of(old(task)@).source,
                ) && wf_str(task_def_of(old(task)@).target) && wf_str(old(ctx).meta_root@))
                &&& *final(ctx) == *old(ctx)
                &&& *final(task) == *old(task)
            },
        },
{
    if task_id.is_empty() || !check_wf_str(task_id) {
        return Err(EngineError::Validation);
    }
    {
        let d = task.def();
        if !check_wf_str(d.source.as_str()) || !check_wf_str(d.target.as_str()) {
            return Err(EngineError::Validation);
        }
    }
    if !check_wf_str(ctx.meta_root.as_str()) {
        return Err(EngineError::Validation);
    }
    let meta_dir = gen_file_path(ctx.meta_root.as_str(), task_id, "");
    let _md_len: usize = meta_dir.as_str().unicode_len();
    task.set_task_id(task_id);
    task.set_meta_dir(meta_dir.as_str());
    proof {
        reveal_strlit("");
        assert(("")@ =~= Seq::<char>::empty());
        lemma_path_wf(old(ctx).meta_root@, task_id@, meta_dir@);
        assert(wf_str(task_def_of(task@).meta_dir));
    }
    put_task(ctx, task);
    Ok(())
}

/// Starts a task: refuses a task that is already live, loads its definition,
/// registers a fresh stop flag and an empty worker group, records the live
/// `Starting` status and persists a `Starting` status record stamped with
/// `now_secs`. The caller spawns the returned definition's root worker.
pub fn service_start_task(ctx: &mut EngineContext, task_id: &str, now_secs: u64) -> (r: Result<
    Task,
    EngineError,
>)
    requires
        old(ctx).wf(),
    ensures
        final(ctx).wf(),
        match r {
            Ok(t) => {
                &&& !old(ctx).is_living(task_id@)
                &&& old(ctx).task_ns().contains_key(task_id@)
                &&& decode_task_record(old(ctx).task_ns()[task_id@]) == Some(t@)
                &&& final(ctx).stops() == old(ctx).stops().insert(task_id@, false)
                &&& final(ctx).live() == old(ctx).live().insert(
                    task_id@,
                    (TransferTaskStatusV {
                        task_id: task_id@,
                        status: crate::tasks::LifeStateV::Starting,
                    }),
                )
                &&& final(ctx).groups().contains_key(task_id@)
                &&& final(ctx).groups()[task_id@].control.len() == 0
                &&& final(ctx).groups()[task_id@].execution.len() == 0
                &&& final(ctx).groups()[task_id@].large_object.len() == 0
                &&& forall|k: Seq<char>|
                    k != task_id@ ==> (#[trigger] final(ctx).groups().contains_key(k)) == old(ctx).groups().contains_key(k) && (old(ctx).groups().contains_key(k) ==> final(ctx).groups()[k] == old(ctx).groups()[k])
                &&& final(ctx).status_ns() == old(ctx).status_ns().insert(
                    task_id@,
                    crate::codec::status_record_bytes(
                        now_secs,
                        crate::tasks::LifeStateV::Starting,
                    ),
                )
                &&& final(ctx).tracker() == old(ctx).tracker()
                &&& final(ctx).task_ns() == old(ctx).task_ns()
                &&& final(ctx).cp_ns() == old(ctx).cp_ns()
                &&& final(ctx).meta_root@ == old(ctx).meta_root@
            },
            Err(e) => {
                &&& *final(ctx) == *old(ctx)
                &&& if old(ctx).is_living(task_id@) {
                    e == EngineError::AlreadyLive
                } else if !old(ctx).task_ns().contains_key(task_id@) {
                    e == EngineError::NotFound
                } else {
                    e == EngineError::Store && decode_task_record(
                        old(ctx).task_ns()[task_id@],
                    ) is None
                }
            },
        },
{
    if task_is_living(ctx, task_id) {
        return Err(EngineError::AlreadyLive);
    }
    let task = match get_task(ctx, task_id) {
        Ok(t) => t,
        Err(e) => {
            return Err(e);
        },
    };
    register_stop_flag(ctx, task_id);
    register_exec_joinset(ctx, task_id);
    crate::task_server::save_task_status(
        ctx,
        task_id,
        TransferTaskStatus { task_id: task_id.to_owned(), status: TaskLifeState::Starting },
    );
    let mut status = TaskStatus {
        task_id: task_id.to_owned(),
        start_time: 0,
        status: TaskLifeState::Starting,
    };
    crate::store::save_task_status(ctx, &mut status, now_secs);
    Ok(task)
}

/// Signals a live task to stop: sets its cooperative stop flag and returns
/// immediately, without waiting for worker drain.
///
/// Fails with `NotLiving` when the task is not live, and with
/// `StopFlagMissing` when a live task has no registered flag; neither failure
/// changes anything.
pub fn service_stop_task(ctx: &mut EngineContext, task_id: &str) -> (r: Result<(), EngineError>)
    ensures
        match r {
            Ok(()) => {
                &&& old(ctx).is_living(task_id@)
                &&& old(ctx).stops().contains_key(task_id@)
                &&& final(ctx).stops() == old(ctx).stops().insert(task_id@, true)
                &&& final(ctx).live() == old(ctx).live()
                &&& final(ctx).tracker() == old(ctx).tracker()
                &&& final(ctx).groups() == old(ctx).groups()
                &&& persisted_unchanged(*old(ctx), *final(ctx))
                &&& final(ctx).wf() == old(ctx).wf()
            },
            Err(e) => {
                &&& final(ctx).stops() == old(ctx).stops()
                &&& final(ctx).live() == old(ctx).live()
                &&& final(ctx).tracker() == old(ctx).tracker()
                &&& final(ctx).groups() == old(ctx).groups()
                &&& persisted_unchanged(*old(ctx), *final(ctx))
                &&& final(ctx).wf() == old(ctx).wf()
                &&& if !old(ctx).is_living(task_id@) {
                    e == EngineError::NotLiving
                } else {
                    e == EngineError::StopFlagMissing && !old(ctx).stops().contains_key(task_id@)
                }
            },
        },
{
    if !task_is_living(ctx, task_id) {
        return Err(EngineError::NotLiving);
    }
    let found = crate::registry::stop_map_signal(&mut ctx.stop_flags, task_id);
    if found {
        Ok(())
    } else {
        Err(EngineError::StopFlagMissing)
    }
}

/// Reads back the task definition stored under `task_id`.
pub fn service_show_task(ctx: &EngineContext, task_id: &str) -> (r: Result<Task, EngineError>)
    requires
        ctx.wf(),
    ensures
        match r {
            Ok(t) => ctx.task_ns().contains_key(task_id@) && decode_task_record(
                ctx.task_ns()[task_id@],
            ) == Some(t@),
            Err(e) => {
                &&& e == if !ctx.task_ns().contains_key(task_id@) {
                    EngineError::NotFound
                } else {
                    EngineError::Store
                }
                &&& ctx.task_ns().contains_key(task_id@) ==> decode_task_record(
                    ctx.task_ns()[task_id@],
                ) is None
            },
        },
{
    get_task(ctx, task_id)
}

/// Reads back the checkpoint stored under `task_id`.
pub fn service_task_checkpoint(ctx: &EngineContext, task_id: &str) -> (r: Result<
    CheckPoint,
    EngineError,
>)
    requires
        ctx.wf(),
    ensures
        match r {
            Ok(cp) => {
                &&& ctx.cp_ns().contains_key(task_id@)
                &&& crate::codec::decode_cp_record(ctx.cp_ns()[task_id@]) == Some(
                    (cp.modify_checkpoint_timestamp, cp.executing_file_position),
                )
                &&& cp.task_id@ == task_id@
            },
            Err(e) => {
                &&& e == if !ctx.cp_ns().contains_key(task_id@) {
                    EngineError::NotFound
                } else {
                    EngineError::Store
                }
                &&& ctx.cp_ns().contains_key(task_id@) ==> crate::codec::decode_cp_record(
                    ctx.cp_ns()[task_id@],
                ) is None
            },
        },
{
    get_checkpoint(ctx, task_id)
}

/// Removes the given tasks' definitions and yields their metadata
/// directories, for the caller to delete from disk.
///
/// Fails with `StillLiving`, changing nothing, when any of the tasks is
/// still live.
pub fn service_remove_task(ctx: &mut EngineContext, task_ids: &Vec<String>) -> (r: Result<
    Vec<String>,
    EngineError,
>)
    requires
        old(ctx).wf(),
    ensures
        final(ctx).wf(),
        match r {
            Ok(dirs) => {
                &&& forall|i: int|
                    0 <= i < task_ids@.len() ==> !old(ctx).is_living(
                        (#[trigger] task_ids@[i])@,
                    )
                &&& dirs@.len() == task_ids@.len()
                &&& forall|i: int|
                    0 <= i < dirs@.len() ==> (#[trigger] dirs@[i])@ == file_path_chars(
                        old(ctx).meta_root@,
                        task_ids@[i]@,
                        Seq::empty(),
                    )
                &&& forall|k: Seq<char>|
                    #[trigger] final(ctx).task_ns().contains_key(k) ==> old(ctx).task_ns().contains_key(k) && final(ctx).task_ns()[k] == old(ctx).task_ns()[k]
                &&& forall|k: Seq<char>|
                    old(ctx).task_ns().contains_key(k) ==> (#[trigger] final(ctx).task_ns().contains_key(k)) || exists|i: int|
                        0 <= i < task_ids@.len() && (#[trigger] task_ids@[i])@ == k
                &&& forall|i: int|
                    0 <= i < task_ids@.len() ==> !final(ctx).task_ns().contains_key(
                        (#[trigger] task_ids@[i])@,
                    )
                &&& final(ctx).status_ns() == old(ctx).status_ns()
                &&& final(ctx).cp_ns() == old(ctx).cp_ns()
                &&& registries_unchanged(*old(ctx), *final(ctx))
                &&& final(ctx).meta_root@ == old(ctx).meta_root@
            },
            Err(e) => {
                &&& e == EngineError::StillLiving
                &&& exists|i: int|
                    0 <= i < task_ids@.len() && old(ctx).is_living((#[trigger] task_ids@[i])@)
                &&& *final(ctx) == *old(ctx)
            },
        },
{
    let n = task_ids.len();
    let mut i: usize = 0;
    while i < n
        invariant
            i <= n,
            n == task_ids@.len(),
            ctx.wf(),
            *ctx == *old(ctx),
            forall|j: int| 0 <= j < i ==> !ctx.is_living((#[trigger] task_ids@[j])@),
        decreases n - i,
    {
        let id = vstd::std_specs::vec::vec_index(task_ids, i);
        if task_is_living(ctx, id.as_str()) {
            return Err(EngineError::StillLiving);
        }
        i += 1;
    }
    let mut dirs: Vec<String> = Vec::new();
    let mut j: usize = 0;
    while j < n
        invariant
            j <= n,
            n == task_ids@.len(),
            ctx.wf(),
            dirs@.len() == j,
            forall|i2: int|
                0 <= i2 < j ==> (#[trigger] dirs@[i2])@ == file_path_chars(
                    old(ctx).meta_root@,
                    task_ids@[i2]@,
                    Seq::empty(),
                ),
            forall|k: Seq<char>|
                #[trigger] ctx.task_ns().contains_key(k) ==> old(ctx).task_ns().contains_key(k)
                    && ctx.task_ns()[k] == old(ctx).task_ns()[k],
            forall|k: Seq<char>|
                old(ctx).task_ns().contains_key(k) ==> (#[trigger] ctx.task_ns().contains_key(k))
                    || exists|i2: int|
                    0 <= i2 < j && (#[trigger] task_ids@[i2])@ == k,
            forall|i2: int|
                0 <= i2 < j ==> !ctx.task_ns().contains_key((#[trigger] task_ids@[i2])@),
            ctx.status_ns() == old(ctx).status_ns(),
            ctx.cp_ns() == old(ctx).cp_ns(),
            registries_unchanged(*old(ctx), *ctx),
            ctx.meta_root@ == old(ctx).meta_root@,
        decreases n - j,
    {
        let id = vstd::std_specs::vec::vec_index(task_ids, j);
        let ghost pre = ctx.task_ns();
        delete_task(ctx, id.as_str());
        let dir = gen_file_path(ctx.meta_root.as_str(), id.as_str(), "");
        dirs.push(dir);
        proof {
            reveal_strlit("");
            assert(("")@ =~= Seq::<char>::empty());
            assert forall|i2: int| 0 <= i2 < j + 1 implies !ctx.task_ns().contains_key(
                (#[trigger] task_ids@[i2])@,
            ) by {
                if i2 < j {
                    assert(!pre.contains_key(task_ids@[i2]@));
                }
            }
        }
        j += 1;
    }
    Ok(dirs)
}

/// One row of the task listing: the stored key and the decoded definition.
#[derive(Debug)]
pub struct RespListTask {
    pub cf_id: String,
    pub task: Task,
}

/// Lists every stored task definition with its key, in ascending key order.
///
/// Fails with `Store` exactly when some stored definition does not decode;
/// otherwise yields each stored definition exactly once.
pub fn service_list_all_tasks(ctx: &EngineContext) -> (r: Result<Vec<RespListTask>, EngineError>)
    requires
        ctx.wf(),
    ensures
        match r {
            Ok(v) => {
                &&& forall|i: int|
                    0 <= i < v@.len() ==> ctx.task_ns().contains_key(
                        (#[trigger] v@[i]).cf_id@,
                    ) && decode_task_record(ctx.task_ns()[v@[i].cf_id@]) == Some(v@[i].task@)
                &&& forall|k: Seq<char>|
                    ctx.task_ns().contains_key(k) ==> exists|i: int|
                        0 <= i < v@.len() && (#[trigger] v@[i]).cf_id@ == k
                &&& forall|i: int, j: int|
                    0 <= i < j < v@.len() ==> crate::kv::chars_lt(
                        (#[trigger] v@[i]).cf_id@,
                        (#[trigger] v@[j]).cf_id@,
                    )
                &&& forall|i: int, j: int|
                    0 <= i < j < v@.len() ==> (#[trigger] v@[i]).cf_id@ != (#[trigger] v@[j]).cf_id@
            },
            Err(e) => {
                &&& e == EngineError::Store
                &&& exists|k: Seq<char>|
                    #[trigger] ctx.task_ns().contains_key(k) && decode_task_record(
                        ctx.task_ns()[k],
                    ) is None
            },
        },
{
    let records = ctx.store.tasks.scan();
    let n = records.len();
    let mut out: Vec<RespListTask> = Vec::new();
    let mut i: usize = 0;
    while i < n
        invariant
            i <= n,
            n == records@.len(),
            ctx.wf(),
            out@.len() == i,
            forall|j: int|
                0 <= j < n ==> ctx.task_ns().contains_key((#[trigger] records@[j]).0@)
                    && ctx.task_ns()[records@[j].0@] == records@[j].1@,
            forall|k: Seq<char>|
                ctx.task_ns().contains_key(k) ==> exists|j: int|
                    0 <= j < n && (#[trigger] records@[j]).0@ == k,
            forall|j1: int, j2: int|
                0 <= j1 < j2 < n ==> (#[trigger] records@[j1]).0@ != (#[trigger] records@[j2]).0@,
            forall|j1: int, j2: int|
                0 <= j1 < j2 < n ==> crate::kv::chars_lt(
                    (#[trigger] records@[j1]).0@,
                    (#[trigger] records@[j2]).0@,
                ),
            forall|j: int|
                0 <= j < i ==> (#[trigger] out@[j]).cf_id@ == records@[j].0@ && decode_task_record(
                    ctx.task_ns()[records@[j].0@],
                ) == Some(out@[j].task@),
        decreases n - i,
    {
        let e = vstd::std_specs::vec::vec_index(&records, i);
        match crate::codec::decode_task_record_take(e.1.as_slice()) {
            Some(t) => {
                out.push(RespListTask { cf_id: e.0.clone(), task: t });
            },
            None => {
                return Err(EngineError::Store);
            },
        }
        i += 1;
    }
    proof {
        assert forall|k: Seq<char>| ctx.task_ns().contains_key(k) implies exists|i2: int|
            0 <= i2 < out@.len() && (#[trigger] out@[i2]).cf_id@ == k by {
            let j = choose|j: int| 0 <= j < records@.len() && (#[trigger] records@[j]).0@ == k;
            assert(out@[j].cf_id@ == k);
        }
        assert forall|i2: int, j2: int| 0 <= i2 < j2 < out@.len() implies (
        #[trigger] out@[i2]).cf_id@ != (#[trigger] out@[j2]).cf_id@ by {
            assert(records@[i2].0@ != records@[j2].0@);
        }
        assert forall|i2: int, j2: int| 0 <= i2 < j2 < out@.len() implies crate::kv::chars_lt(
            (#[trigger] out@[i2]).cf_id@,
            (#[trigger] out@[j2]).cf_id@,
        ) by {
            assert(crate::kv::chars_lt(records@[i2].0@, records@[j2].0@));
        }
    }
    Ok(out)
}

} // verus!
