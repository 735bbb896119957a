//! A single-process engine for long-lived, resumable tasks: an in-memory
//! registry of running tasks, cooperative cancellation, per-worker progress
//! tracking, and periodic reduction of that progress into durable checkpoints.

use vstd::prelude::*;

pub mod codec;
pub mod kv;
pub mod laws;
pub mod registry;
pub mod service;
pub mod store;
pub mod task_server;
pub mod tasks;

use registry::{ExecGroupMap, LiveTaskMap, PositionMap, StopFlagMap, WorkerGroupV};
use tasks::{FilePosition, TransferTaskStatusV};

verus! {

/// The engine's whole state: the durable store and the in-memory registries,
/// passed explicitly into every operation.
pub struct EngineContext {
    pub store: store::DurableStore,
    pub live_tasks: LiveTaskMap,
    pub stop_flags: StopFlagMap,
    pub positions: PositionMap,
    pub exec_groups: ExecGroupMap,
    pub meta_root: String,
}

impl EngineContext {
    /// The context's well-formedness: every store namespace is well-formed.
    pub open spec fn wf(self) -> bool {
        self.store.wf()
    }

    /// The task-definition namespace of the durable store.
    pub open spec fn task_ns(self) -> Map<Seq<char>, Seq<u8>> {
        self.store.tasks.contents()
    }

    /// The task-status namespace of the durable store.
    pub open spec fn status_ns(self) -> Map<Seq<char>, Seq<u8>> {
        self.store.statuses.contents()
    }

    /// The checkpoint namespace of the durable store.
    pub open spec fn cp_ns(self) -> Map<Seq<char>, Seq<u8>> {
        self.store.checkpoints.contents()
    }

    /// The live-task statuses held in memory.
    pub open spec fn live(self) -> Map<Seq<char>, TransferTaskStatusV> {
        registry::live_contents(self.live_tasks)
    }

    /// The cooperative stop flags.
    pub open spec fn stops(self) -> Map<Seq<char>, bool> {
        registry::stop_contents(self.stop_flags)
    }

    /// The per-worker progress markers.
    pub open spec fn tracker(self) -> Map<(Seq<char>, Seq<char>), FilePosition> {
        registry::position_contents(self.positions)
    }

    /// The per-task worker groups.
    pub open spec fn groups(self) -> Map<Seq<char>, WorkerGroupV> {
        registry::group_contents(self.exec_groups)
    }

    /// A task is living exactly when a live-status entry exists for it and
    /// that entry is not `Stopped`.
    pub open spec fn is_living(self, task_id: Seq<char>) -> bool {
        self.live().contains_key(task_id) && !(self.live()[task_id].status is Stopped)
    }

    /// A fresh context with empty store and registries.
    pub fn new(meta_root: String) -> (r: EngineContext)
        ensures
            r.wf(),
            r.task_ns() == Map::<Seq<char>, Seq<u8>>::empty(),
            r.status_ns() == Map::<Seq<char>, Seq<u8>>::empty(),
            r.cp_ns() == Map::<Seq<char>, Seq<u8>>::empty(),
            r.live() == Map::<Seq<char>, TransferTaskStatusV>::empty(),
            r.stops() == Map::<Seq<char>, bool>::empty(),
            r.tracker() == Map::<(Seq<char>, Seq<char>), FilePosition>::empty(),
            r.groups() == Map::<Seq<char>, WorkerGroupV>::empty(),
            r.meta_root@ == meta_root@,
    {
        let r = EngineContext {
            store: store::DurableStore::new(),
            live_tasks: registry::live_map_new(),
            stop_flags: registry::stop_map_new(),
            positions: registry::position_map_new(),
            exec_groups: registry::group_map_new(),
            meta_root,
        };
        proof {
            assert(r.live() =~= Map::<Seq<char>, TransferTaskStatusV>::empty());
            assert(r.stops() =~= Map::<Seq<char>, bool>::empty());
            assert(r.tracker() =~= Map::<(Seq<char>, Seq<char>), FilePosition>::empty());
            assert(r.groups() =~= Map::<Seq<char>, WorkerGroupV>::empty());
        }
        r
    }
}

/// The in-memory registries of `b` are those of `a`.
pub open spec fn registries_unchanged(a: EngineContext, b: EngineContext) -> bool {
    &&& a.live() == b.live()
    &&& a.stops() == b.stops()
    &&& a.tracker() == b.tracker()
    &&& a.groups() == b.groups()
}

/// The persisted namespaces and the metadata root of `b` are those of `a`.
pub open spec fn persisted_unchanged(a: EngineContext, b: EngineContext) -> bool {
    &&& a.task_ns() == b.task_ns()
    &&& a.status_ns() == b.status_ns()
    &&& a.cp_ns() == b.cp_ns()
    &&& a.meta_root@ == b.meta_root@
}

} // verus!
