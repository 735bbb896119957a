//! The task server: liveness registry operations, cooperative stop flags,
//! per-worker progress reports, task teardown, restart reconciliation, and
//! the periodic reduction of worker positions into durable checkpoints.

use vstd::prelude::*;

use crate::registry::{
    group_map_get, group_map_insert, group_map_remove, live_map_get, live_map_insert,
    live_map_remove, position_map_entries, position_map_remove, position_map_report,
    stop_map_read, stop_map_register, stop_map_unregister, WorkerGroup,
};
use crate::store::{get_checkpoint, get_task_status, living_tasks, save_checkpoint_to_cf};
use crate::tasks::{
    EngineError, FilePosition, StopReason, TaskLifeState, TaskStatus, TransferTaskStatus,
};
use crate::codec::{
    cp_record_bytes, decode_cp_record, decode_status_fields, status_record_bytes, wf_state,
};
use crate::{persisted_unchanged, registries_unchanged, EngineContext};

verus! {

/// Records the live status of a task in the in-memory registry.
pub fn save_task_status(ctx: &mut EngineContext, task_id: &str, task_status: TransferTaskStatus)
    ensures
        final(ctx).live() == old(ctx).live().insert(task_id@, task_status@),
        final(ctx).stops() == old(ctx).stops(),
        final(ctx).tracker() == old(ctx).tracker(),
        final(ctx).groups() == old(ctx).groups(),
        persisted_unchanged(*old(ctx), *final(ctx)),
        final(ctx).wf() == old(ctx).wf(),
{
    live_map_insert(&mut ctx.live_tasks, task_id, task_status);
}

/// Removes a task's entry from the live registry.
pub fn log_out_living_task(ctx: &mut EngineContext, task_id: &str)
    ensures
        final(ctx).live() == old(ctx).live().remove(task_id@),
        final(ctx).stops() == old(ctx).stops(),
        final(ctx).tracker() == old(ctx).tracker(),
        final(ctx).groups() == old(ctx).groups(),
        persisted_unchanged(*old(ctx), *final(ctx)),
        final(ctx).wf() == old(ctx).wf(),
{
    live_map_remove(&mut ctx.live_tasks, task_id);
}

/// Whether the task is living: it has a live entry that is not `Stopped`.
pub fn task_is_living(ctx: &EngineContext, task_id: &str) -> (r: bool)
    ensures
        r == ctx.is_living(task_id@),
{
    match live_map_get(&ctx.live_tasks, task_id) {
        Some(ts) => match ts.status {
            TaskLifeState::Stopped(_) => false,
            _ => true,
        },
        None => false,
    }
}

/// The live status of a task; fails with `NotLiving` when the task has no
/// live entry.
pub fn get_live_transfer_task_status(ctx: &EngineContext, task_id: &str) -> (r: Result<
    TransferTaskStatus,
    EngineError,
>)
    ensures
        match r {
            Ok(st) => ctx.live().contains_key(task_id@) && st@ == ctx.live()[task_id@],
            Err(e) => e == EngineError::NotLiving && !ctx.live().contains_key(task_id@),
        },
{
    match live_map_get(&ctx.live_tasks, task_id) {
        Some(st) => Ok(st),
        None => Err(EngineError::NotLiving),
    }
}

/// Registers a fresh stop flag for the task, initialized to false.
pub fn register_stop_flag(ctx: &mut EngineContext, task_id: &str)
    ensures
        final(ctx).stops() == old(ctx).stops().insert(task_id@, false),
        final(ctx).live() == old(ctx).live(),
        final(ctx).tracker() == old(ctx).tracker(),
        final(ctx).groups() == old(ctx).groups(),
        persisted_unchanged(*old(ctx), *final(ctx)),
        final(ctx).wf() == old(ctx).wf(),
{
    stop_map_register(&mut ctx.stop_flags, task_id);
}

/// Reads the task's stop flag, if one is registered: the cooperative check a
/// worker makes at each safe point.
pub fn stop_flag_state(ctx: &EngineContext, task_id: &str) -> (r: Option<bool>)
    ensures
        match r {
            Some(v) => ctx.stops().contains_key(task_id@) && v == ctx.stops()[task_id@],
            None => !ctx.stops().contains_key(task_id@),
        },
{
    stop_map_read(&ctx.stop_flags, task_id)
}

/// Overwrites the progress marker of one worker of a task.
pub fn report_position(ctx: &mut EngineContext, task_id: &str, worker_id: &str, pos: FilePosition)
    ensures
        final(ctx).tracker() == old(ctx).tracker().insert((task_id@, worker_id@), pos),
        final(ctx).live() == old(ctx).live(),
        final(ctx).stops() == old(ctx).stops(),
        final(ctx).groups() == old(ctx).groups(),
        persisted_unchanged(*old(ctx), *final(ctx)),
        final(ctx).wf() == old(ctx).wf(),
{
    position_map_report(&mut ctx.positions, task_id, worker_id, pos);
}

/// The tracker restricted to the keys of other tasks.
pub open spec fn tracker_without(
    trk: Map<(Seq<char>, Seq<char>), FilePosition>,
    task_id: Seq<char>,
) -> Map<(Seq<char>, Seq<char>), FilePosition> {
    Map::new(
        |k: (Seq<char>, Seq<char>)| trk.contains_key(k) && k.0 != task_id,
        |k: (Seq<char>, Seq<char>)| trk[k],
    )
}

/// Removes every progress marker of the task from the tracker.
pub fn prune_task_positions(ctx: &mut EngineContext, task_id: &str)
    ensures
        final(ctx).tracker() == tracker_without(old(ctx).tracker(), task_id@),
        final(ctx).live() == old(ctx).live(),
        final(ctx).stops() == old(ctx).stops(),
        final(ctx).groups() == old(ctx).groups(),
        persisted_unchanged(*old(ctx), *final(ctx)),
        final(ctx).wf() == old(ctx).wf(),
{
    let key: String = task_id.to_owned();
    let entries = position_map_entries(&ctx.positions);
    let n = entries.len();
    let mut i: usize = 0;
    while i < n
        invariant
            i <= n,
            n == entries@.len(),
            key@ == task_id@,
            ctx.live() == old(ctx).live(),
            ctx.stops() == old(ctx).stops(),
            ctx.groups() == old(ctx).groups(),
            persisted_unchanged(*old(ctx), *ctx),
            ctx.wf() == old(ctx).wf(),
            forall|j: int|
                0 <= j < entries@.len() ==> old(ctx).tracker().contains_key(
                    ((#[trigger] entries@[j]).0@, entries@[j].1@),
                ),
            forall|k: (Seq<char>, Seq<char>)|
                old(ctx).tracker().contains_key(k) ==> exists|j: int|
                    0 <= j < entries@.len() && ((#[trigger] entries@[j]).0@, entries@[j].1@) == k,
            forall|k: (Seq<char>, Seq<char>)|
                #[trigger] ctx.tracker().contains_key(k) ==> old(ctx).tracker().contains_key(k)
                    && ctx.tracker()[k] == old(ctx).tracker()[k],
            forall|k: (Seq<char>, Seq<char>)|
                old(ctx).tracker().contains_key(k) && k.0 != task_id@
                    ==> #[trigger] ctx.tracker().contains_key(k),
            forall|j: int|
                0 <= j < i && (#[trigger] entries@[j]).0@ == task_id@ ==> !ctx.tracker(
                ).contains_key((entries@[j].0@, entries@[j].1@)),
        decreases n - i,
    {
        let e = vstd::std_specs::vec::vec_index(&entries, i);
        let ghost pre = ctx.tracker();
        if e.0 == key {
            position_map_remove(&mut ctx.positions, e.0.as_str(), e.1.as_str());
            proof {
                let rk = ((entries@[i as int]).0@, (entries@[i as int]).1@);
                assert(ctx.tracker() == pre.remove(rk));
                assert(rk.0 == task_id@);
                assert forall|k: (Seq<char>, Seq<char>)| #[trigger] ctx.tracker().contains_key(
                    k,
                ) implies old(ctx).tracker().contains_key(k) && ctx.tracker()[k]
                    == old(ctx).tracker()[k] by {
                    assert(pre.contains_key(k) && k != rk);
                }
                assert forall|k: (Seq<char>, Seq<char>)|
                    old(ctx).tracker().contains_key(k) && k.0 != task_id@ implies #[trigger] ctx.tracker().contains_key(k) by {
                    assert(pre.contains_key(k));
                    assert(k != rk);
                }
            }
        }
        i += 1;
    }
    proof {
        assert(ctx.tracker() =~= tracker_without(old(ctx).tracker(), task_id@));
    }
}

/// The worker-group record of the task's execution registry entry; fails when
/// none exists.
pub fn get_exec_joinset(ctx: &EngineContext, task_id: &str) -> (r: Result<WorkerGroup, EngineError>)
    ensures
        match r {
            Ok(g) => ctx.groups().contains_key(task_id@) && g@ == ctx.groups()[task_id@],
            Err(e) => e == EngineError::NotFound && !ctx.groups().contains_key(task_id@),
        },
{
    match group_map_get(&ctx.exec_groups, task_id) {
        Some(g) => Ok(g),
        None => Err(EngineError::NotFound),
    }
}

/// Creates a fresh, empty worker group for the task.
pub fn register_exec_joinset(ctx: &mut EngineContext, task_id: &str)
    ensures
        final(ctx).groups().contains_key(task_id@),
        final(ctx).groups()[task_id@].control.len() == 0,
        final(ctx).groups()[task_id@].execution.len() == 0,
        final(ctx).groups()[task_id@].large_object.len() == 0,
        forall|k: Seq<char>|
            k != task_id@ ==> (#[trigger] final(ctx).groups().contains_key(k)) == old(ctx).groups().contains_key(k) && (old(ctx).groups().contains_key(k) ==> final(ctx).groups()[k] == old(ctx).groups()[k]),
        final(ctx).live() == old(ctx).live(),
        final(ctx).stops() == old(ctx).stops(),
        final(ctx).tracker() == old(ctx).tracker(),
        persisted_unchanged(*old(ctx), *final(ctx)),
        final(ctx).wf() == old(ctx).wf(),
{
    group_map_insert(&mut ctx.exec_groups, task_id, WorkerGroup::empty());
}

/// One worker category of a task's group: coordination workers, per-object
/// execution workers, and large-object workers.
#[derive(Clone, Copy, PartialEq, Eq, Structural, Debug)]
pub enum WorkerCategory {
    Control,
    Execution,
    LargeObject,
}

/// The group `g` with one more worker id in the given category.
pub open spec fn group_with(
    g: crate::registry::WorkerGroupV,
    category: WorkerCategory,
    worker_id: Seq<char>,
) -> crate::registry::WorkerGroupV {
    match category {
        WorkerCategory::Control => crate::registry::WorkerGroupV {
            control: g.control.push(worker_id),
            ..g
        },
        WorkerCategory::Execution => crate::registry::WorkerGroupV {
            execution: g.execution.push(worker_id),
            ..g
        },
        WorkerCategory::LargeObject => crate::registry::WorkerGroupV {
            large_object: g.large_object.push(worker_id),
            ..g
        },
    }
}

/// Records one spawned worker of the task under its category; reports
/// whether the task had a worker group to record it in.
pub fn spawn_into(
    ctx: &mut EngineContext,
    task_id: &str,
    category: WorkerCategory,
    worker_id: &str,
) -> (found: bool)
    ensures
        found == old(ctx).groups().contains_key(task_id@),
        found ==> final(ctx).groups() == old(ctx).groups().insert(
            task_id@,
            group_with(old(ctx).groups()[task_id@], category, worker_id@),
        ),
        !found ==> final(ctx).groups() == old(ctx).groups(),
        final(ctx).live() == old(ctx).live(),
        final(ctx).stops() == old(ctx).stops(),
        final(ctx).tracker() == old(ctx).tracker(),
        persisted_unchanged(*old(ctx), *final(ctx)),
        final(ctx).wf() == old(ctx).wf(),
{
    match group_map_get(&ctx.exec_groups, task_id) {
        Some(mut g) => {
            let ghost g0 = g@;
            match category {
                WorkerCategory::Control => g.control.push(worker_id.to_owned()),
                WorkerCategory::Execution => g.execution.push(worker_id.to_owned()),
                WorkerCategory::LargeObject => g.large_object.push(worker_id.to_owned()),
            }
            proof {
                assert(g@.control =~= group_with(g0, category, worker_id@).control);
                assert(g@.execution =~= group_with(g0, category, worker_id@).execution);
                assert(g@.large_object =~= group_with(g0, category, worker_id@).large_object);
            }
            group_map_insert(&mut ctx.exec_groups, task_id, g);
            true
        },
        None => false,
    }
}

/// Removes the task's entry from the execution registry.
pub fn remove_exec_joinset(ctx: &mut EngineContext, task_id: &str)
    ensures
        final(ctx).groups() == old(ctx).groups().remove(task_id@),
        final(ctx).live() == old(ctx).live(),
        final(ctx).stops() == old(ctx).stops(),
        final(ctx).tracker() == old(ctx).tracker(),
        persisted_unchanged(*old(ctx), *final(ctx)),
        final(ctx).wf() == old(ctx).wf(),
{
    group_map_remove(&mut ctx.exec_groups, task_id);
}

/// Tears a task fully down once no worker remains: persists the terminal
/// `Stopped` status (keeping the recorded start time, if readable), removes
/// the live entry, the worker group and the stop flag, and prunes the task's
/// progress markers.
///
/// Fails with `Validation`, changing nothing, when a failure detail is not
/// ASCII and so cannot be persisted.
pub fn finish_task(ctx: &mut EngineContext, task_id: &str, reason: StopReason) -> (r: Result<
    (),
    EngineError,
>)
    requires
        old(ctx).wf(),
    ensures
        final(ctx).wf(),
        match r {
            Ok(()) => {
                &&& wf_state(crate::tasks::LifeStateV::Stopped(reason@))
                &&& final(ctx).status_ns() == old(ctx).status_ns().insert(
                    task_id@,
                    status_record_bytes(
                        status_start_time(old(ctx).status_ns(), task_id@),
                        crate::tasks::LifeStateV::Stopped(reason@),
                    ),
                )
                &&& final(ctx).live() == old(ctx).live().remove(task_id@)
                &&& final(ctx).groups() == old(ctx).groups().remove(task_id@)
                &&& final(ctx).stops() == old(ctx).stops().remove(task_id@)
                &&& final(ctx).tracker() == tracker_without(old(ctx).tracker(), task_id@)
                &&& final(ctx).task_ns() == old(ctx).task_ns()
                &&& final(ctx).cp_ns() == old(ctx).cp_ns()
                &&& final(ctx).meta_root@ == old(ctx).meta_root@
            },
            Err(e) => {
                &&& e == EngineError::Validation
                &&& !wf_state(crate::tasks::LifeStateV::Stopped(reason@))
                &&& *final(ctx) == *old(ctx)
            },
        },
{
    if let StopReason::Failed(d) = &reason {
        let _len: usize = d.as_str().unicode_len();
        if !d.as_str().is_ascii() {
            return Err(EngineError::Validation);
        }
    }
    let start_time: u64 = match get_task_status(ctx, task_id) {
        Ok(st) => st.start_time,
        Err(_) => 0,
    };
    let mut status = TaskStatus {
        task_id: task_id.to_owned(),
        start_time,
        status: TaskLifeState::Stopped(reason),
    };
    crate::store::save_task_status(ctx, &mut status, 0);
    log_out_living_task(ctx, task_id);
    remove_exec_joinset(ctx, task_id);
    stop_map_unregister(&mut ctx.stop_flags, task_id);
    prune_task_positions(ctx, task_id);
    Ok(())
}

/// The start time recorded under `k`, zero when the record is missing or
/// does not decode.
pub open spec fn status_start_time(ns: Map<Seq<char>, Seq<u8>>, k: Seq<char>) -> u64 {
    if ns.contains_key(k) {
        match decode_status_fields(ns[k]) {
            Some((t, st)) => t,
            None => 0,
        }
    } else {
        0
    }
}

/// A status record under `k` that decodes and is not `Stopped`.
pub open spec fn ns_living(ns: Map<Seq<char>, Seq<u8>>, k: Seq<char>) -> bool {
    &&& ns.contains_key(k)
    &&& match decode_status_fields(ns[k]) {
        Some((t, st)) => !(st is Stopped),
        None => false,
    }
}

/// Restart reconciliation: every persisted status that is not `Stopped` is
/// re-marked `Stopped(ProcessTerminating)`, keeping its start time; every
/// other record is untouched. Fails with `Store`, changing nothing, when some
/// status record does not decode.
pub fn reconcile_tasks_on_start(ctx: &mut EngineContext) -> (r: Result<(), EngineError>)
    requires
        old(ctx).wf(),
    ensures
        final(ctx).wf(),
        registries_unchanged(*old(ctx), *final(ctx)),
        final(ctx).task_ns() == old(ctx).task_ns(),
        final(ctx).cp_ns() == old(ctx).cp_ns(),
        final(ctx).meta_root@ == old(ctx).meta_root@,
        match r {
            Ok(()) => {
                &&& forall|k: Seq<char>|
                    #[trigger] ns_living(old(ctx).status_ns(), k) ==> final(ctx).status_ns().contains_key(k) && final(ctx).status_ns()[k]
                        == status_record_bytes(
                        status_start_time(old(ctx).status_ns(), k),
                        crate::tasks::LifeStateV::Stopped(
                            crate::tasks::StopReasonV::ProcessTerminating,
                        ),
                    )
                &&& forall|k: Seq<char>|
                    !ns_living(old(ctx).status_ns(), k) ==> (#[trigger] final(ctx).status_ns().contains_key(k)) == old(ctx).status_ns().contains_key(k) && (old(ctx).status_ns().contains_key(k) ==> final(ctx).status_ns()[k] == old(ctx).status_ns()[k])
            },
            Err(e) => {
                &&& e == EngineError::Store
                &&& final(ctx).status_ns() == old(ctx).status_ns()
                &&& exists|k: Seq<char>|
                    #[trigger] old(ctx).status_ns().contains_key(k) && decode_status_fields(
                        old(ctx).status_ns()[k],
                    ) is None
            },
        },
{
    let living = match living_tasks(ctx) {
        Ok(v) => v,
        Err(_) => {
            return Err(EngineError::Store);
        },
    };
    let n = living.len();
    let mut i: usize = 0;
    while i < n
        invariant
            i <= n,
            n == living@.len(),
            ctx.wf(),
            registries_unchanged(*old(ctx), *ctx),
            ctx.task_ns() == old(ctx).task_ns(),
            ctx.cp_ns() == old(ctx).cp_ns(),
            ctx.meta_root@ == old(ctx).meta_root@,
            forall|j: int|
                0 <= j < n ==> ns_living(old(ctx).status_ns(), (#[trigger] living@[j]).task_id@)
                    && decode_status_fields(old(ctx).status_ns()[living@[j].task_id@]) == Some(
                    (living@[j].start_time, living@[j].status@),
                ),
            forall|k: Seq<char>|
                #[trigger] ns_living(old(ctx).status_ns(), k) ==> exists|j: int|
                    0 <= j < n && (#[trigger] living@[j]).task_id@ == k,
            forall|j1: int, j2: int|
                0 <= j1 < j2 < n ==> (#[trigger] living@[j1]).task_id@ != (
                #[trigger] living@[j2]).task_id@,
            forall|j: int|
                0 <= j < i ==> ctx.status_ns().contains_key((#[trigger] living@[j]).task_id@)
                    && ctx.status_ns()[living@[j].task_id@] == status_record_bytes(
                    living@[j].start_time,
                    crate::tasks::LifeStateV::Stopped(
                        crate::tasks::StopReasonV::ProcessTerminating,
                    ),
                ),
            ctx.status_ns().dom() =~= old(ctx).status_ns().dom(),
            forall|k: Seq<char>|
                #[trigger] ctx.status_ns().contains_key(k) ==> ctx.status_ns()[k] == old(
                    ctx,
                ).status_ns()[k] || exists|j: int|
                    0 <= j < i && (#[trigger] living@[j]).task_id@ == k,
        decreases n - i,
    {
        let e = vstd::std_specs::vec::vec_index(&living, i);
        let mut status = TaskStatus {
            task_id: e.task_id.clone(),
            start_time: e.start_time,
            status: TaskLifeState::Stopped(StopReason::ProcessTerminating),
        };
        let ghost pre = ctx.status_ns();
        crate::store::save_task_status(ctx, &mut status, 0);
        proof {
            let kw = living@[i as int].task_id@;
            assert(pre.contains_key(kw));
            assert(ctx.status_ns().dom() =~= pre.dom());
            assert forall|k: Seq<char>| #[trigger] ctx.status_ns().contains_key(k) implies ctx.status_ns()[k] == old(ctx).status_ns()[k] || exists|j: int|
                0 <= j < i + 1 && (#[trigger] living@[j]).task_id@ == k by {
                if k == kw {
                    assert(living@[i as int].task_id@ == k);
                } else {
                    assert(ctx.status_ns()[k] == pre[k]);
                    assert(pre.contains_key(k));
                }
            }
        }
        i += 1;
    }
    proof {
        assert forall|k: Seq<char>| !ns_living(old(ctx).status_ns(), k) implies (
        #[trigger] ctx.status_ns().contains_key(k)) == old(ctx).status_ns().contains_key(k) && (old(
            ctx,
        ).status_ns().contains_key(k) ==> ctx.status_ns()[k] == old(ctx).status_ns()[k]) by {
            if ctx.status_ns().contains_key(k) {
                if exists|j: int| 0 <= j < n && (#[trigger] living@[j]).task_id@ == k {
                    let j = choose|j: int| 0 <= j < n && (#[trigger] living@[j]).task_id@ == k;
                    assert(ns_living(old(ctx).status_ns(), k));
                }
            }
        }
    }
    Ok(())
}

// ---------------------------------------------------------------------------
// Checkpoint snapshotting.
// ---------------------------------------------------------------------------

/// Some worker of the task has a progress marker.
pub open spec fn has_worker_entry(
    trk: Map<(Seq<char>, Seq<char>), FilePosition>,
    task_id: Seq<char>,
) -> bool {
    exists|k: (Seq<char>, Seq<char>)| #[trigger] trk.contains_key(k) && k.0 == task_id
}

/// `p` is a safe resume position for the task: the marker of one of its
/// workers, with the minimum offset among all of them; the zero position when
/// the task has no marker.
pub open spec fn is_min_for(
    trk: Map<(Seq<char>, Seq<char>), FilePosition>,
    task_id: Seq<char>,
    p: FilePosition,
) -> bool {
    if has_worker_entry(trk, task_id) {
        &&& exists|k: (Seq<char>, Seq<char>)|
            #[trigger] trk.contains_key(k) && k.0 == task_id && trk[k] == p
        &&& forall|k: (Seq<char>, Seq<char>)|
            #[trigger] trk.contains_key(k) && k.0 == task_id ==> p.offset <= trk[k].offset
    } else {
        p == (FilePosition { offset: 0, line_num: 0 })
    }
}

/// The marker with the minimum offset among the task's workers: the slowest
/// worker determines the safe resume point.
pub fn min_position_for(ctx: &EngineContext, task_id: &str) -> (p: FilePosition)
    ensures
        is_min_for(ctx.tracker(), task_id@, p),
{
    let key: String = task_id.to_owned();
    let entries = position_map_entries(&ctx.positions);
    let n = entries.len();
    let mut best: Option<FilePosition> = None;
    let mut i: usize = 0;
    while i < n
        invariant
            i <= n,
            n == entries@.len(),
            key@ == task_id@,
            forall|j: int|
                0 <= j < entries@.len() ==> ctx.tracker().contains_key(
                    ((#[trigger] entries@[j]).0@, entries@[j].1@),
                ) && ctx.tracker()[(entries@[j].0@, entries@[j].1@)] == entries@[j].2,
            forall|k: (Seq<char>, Seq<char>)|
                ctx.tracker().contains_key(k) ==> exists|j: int|
                    0 <= j < entries@.len() && ((#[trigger] entries@[j]).0@, entries@[j].1@) == k,
            match best {
                Some(b) => {
                    &&& exists|j: int|
                        0 <= j < i && (#[trigger] entries@[j]).0@ == task_id@ && entries@[j].2 == b
                    &&& forall|j: int|
                        0 <= j < i && (#[trigger] entries@[j]).0@ == task_id@ ==> b.offset
                            <= entries@[j].2.offset
                },
                None => forall|j: int| 0 <= j < i ==> (#[trigger] entries@[j]).0@ != task_id@,
            },
        decreases n - i,
    {
        let e = vstd::std_specs::vec::vec_index(&entries, i);
        if e.0 == key {
            best = match best {
                Some(b) => {
                    if e.2.offset < b.offset {
                        Some(e.2)
                    } else {
                        Some(b)
                    }
                },
                None => Some(e.2),
            };
        }
        i += 1;
    }
    match best {
        Some(b) => {
            proof {
                let j = choose|j: int|
                    0 <= j < entries@.len() && (#[trigger] entries@[j]).0@ == task_id@
                        && entries@[j].2 == b;
                assert(ctx.tracker().contains_key((entries@[j].0@, entries@[j].1@)));
                assert(has_worker_entry(ctx.tracker(), task_id@));
                assert forall|k: (Seq<char>, Seq<char>)|
                    #[trigger] ctx.tracker().contains_key(k) && k.0 == task_id@ implies b.offset
                    <= ctx.tracker()[k].offset by {
                    let j2 = choose|j2: int|
                        0 <= j2 < entries@.len() && ((#[trigger] entries@[j2]).0@, entries@[j2].1@)
                            == k;
                }
            }
            b
        },
        None => {
            proof {
                if has_worker_entry(ctx.tracker(), task_id@) {
                    let k = choose|k: (Seq<char>, Seq<char>)|
                        #[trigger] ctx.tracker().contains_key(k) && k.0 == task_id@;
                    let j = choose|j: int|
                        0 <= j < entries@.len() && ((#[trigger] entries@[j]).0@, entries@[j].1@)
                            == k;
                }
            }
            FilePosition { offset: 0, line_num: 0 }
        },
    }
}

/// The background status saver: folds worker progress into one checkpoint per
/// living task every `interval` seconds.
pub struct TasksStatusSaver {
    pub interval: u64,
}

impl TasksStatusSaver {
    /// A saver with the given snapshot interval, in seconds.
    pub fn new(interval: u64) -> (r: TasksStatusSaver)
        ensures
            r.interval == interval,
    {
        TasksStatusSaver { interval }
    }
}

/// One snapshot cycle: for every living task that has a checkpoint record,
/// reduces its workers' markers to the minimum-offset position and persists
/// the updated checkpoint stamped with `now_secs`. Tasks whose checkpoint is
/// missing or unreadable are skipped; no other record changes. Fails with
/// `Store`, changing nothing, when some status record does not decode.
pub fn snapshot_living_tasks_checkpoints_to_cf(ctx: &mut EngineContext, now_secs: u64) -> (r:
    Result<(), EngineError>)
    requires
        old(ctx).wf(),
    ensures
        final(ctx).wf(),
        registries_unchanged(*old(ctx), *final(ctx)),
        final(ctx).task_ns() == old(ctx).task_ns(),
        final(ctx).status_ns() == old(ctx).status_ns(),
        final(ctx).meta_root@ == old(ctx).meta_root@,
        match r {
            Ok(()) => {
                &&& forall|k: Seq<char>|
                    (#[trigger] ns_living(old(ctx).status_ns(), k) && old(ctx).cp_ns().contains_key(k) && decode_cp_record(old(ctx).cp_ns()[k]) is Some)
                        ==> final(ctx).cp_ns().contains_key(k) && exists|p: FilePosition|
                        is_min_for(old(ctx).tracker(), k, p) && final(ctx).cp_ns()[k]
                            == cp_record_bytes(now_secs as i128, p)
                &&& forall|k: Seq<char>|
                    !(ns_living(old(ctx).status_ns(), k) && old(ctx).cp_ns().contains_key(k)
                        && decode_cp_record(old(ctx).cp_ns()[k]) is Some) ==> (#[trigger] final(ctx).cp_ns().contains_key(k)) == old(ctx).cp_ns().contains_key(k) && (old(ctx).cp_ns().contains_key(k) ==> final(ctx).cp_ns()[k] == old(ctx).cp_ns()[k])
            },
            Err(e) => {
                &&& e == EngineError::Store
                &&& final(ctx).cp_ns() == old(ctx).cp_ns()
                &&& exists|k: Seq<char>|
                    #[trigger] old(ctx).status_ns().contains_key(k) && decode_status_fields(
                        old(ctx).status_ns()[k],
                    ) is None
            },
        },
{
    let living = match living_tasks(ctx) {
        Ok(v) => v,
        Err(_) => {
            return Err(EngineError::Store);
        },
    };
    let n = living.len();
    let mut i: usize = 0;
    while i < n
        invariant
            i <= n,
            n == living@.len(),
            ctx.wf(),
            registries_unchanged(*old(ctx), *ctx),
            ctx.task_ns() == old(ctx).task_ns(),
            ctx.status_ns() == old(ctx).status_ns(),
            ctx.meta_root@ == old(ctx).meta_root@,
            forall|j: int|
                0 <= j < n ==> ns_living(old(ctx).status_ns(), (#[trigger] living@[j]).task_id@),
            forall|k: Seq<char>|
                #[trigger] ns_living(old(ctx).status_ns(), k) ==> exists|j: int|
                    0 <= j < n && (#[trigger] living@[j]).task_id@ == k,
            forall|j1: int, j2: int|
                0 <= j1 < j2 < n ==> (#[trigger] living@[j1]).task_id@ != (
                #[trigger] living@[j2]).task_id@,
            forall|j: int|
                0 <= j < i && old(ctx).cp_ns().contains_key((#[trigger] living@[j]).task_id@)
                    && decode_cp_record(old(ctx).cp_ns()[living@[j].task_id@]) is Some ==> ctx.cp_ns(
                ).contains_key(living@[j].task_id@) && exists|p: FilePosition|
                    is_min_for(old(ctx).tracker(), living@[j].task_id@, p) && ctx.cp_ns(
                    )[living@[j].task_id@] == cp_record_bytes(now_secs as i128, p),
            forall|k: Seq<char>|
                (forall|j: int|
                    0 <= j < i ==> (#[trigger] living@[j]).task_id@ != k || !(old(ctx).cp_ns().contains_key(k) && decode_cp_record(old(ctx).cp_ns()[k]) is Some))
                    ==> (#[trigger] ctx.cp_ns().contains_key(k)) == old(ctx).cp_ns().contains_key(
                    k,
                ) && (old(ctx).cp_ns().contains_key(k) ==> ctx.cp_ns()[k] == old(ctx).cp_ns()[k]),
        decreases n - i,
    {
        let e = vstd::std_specs::vec::vec_index(&living, i);
        match get_checkpoint(ctx, e.task_id.as_str()) {
            Ok(mut checkpoint) => {
                let p = min_position_for(ctx, e.task_id.as_str());
                checkpoint.executing_file_position = p;
                save_checkpoint_to_cf(ctx, &mut checkpoint, now_secs);
            },
            Err(_) => {},
        }
        i += 1;
    }
    Ok(())
}

} // verus!
