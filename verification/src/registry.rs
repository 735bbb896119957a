//! The concurrent in-memory registries of the engine: the live-task map, the
//! stop-flag registry, the per-worker position tracker and the per-task worker
//! groups. Each wraps a `dashmap::DashMap`; the wrappers state what each call
//! does to the map's mathematical contents.

use vstd::prelude::*;

use crate::tasks::{FilePosition, TransferTaskStatus, TransferTaskStatusV};

verus! {

// ---------------------------------------------------------------------------
// Live task statuses, keyed by task id.
// ---------------------------------------------------------------------------

/// The in-memory statuses of live tasks, keyed by task id.
#[verifier::external_body]
pub struct LiveTaskMap {
    inner: dashmap::DashMap<String, TransferTaskStatus>,
}

/// What the live-task map holds, keyed by the task id's characters.
pub uninterp spec fn live_contents(m: LiveTaskMap) -> Map<Seq<char>, TransferTaskStatusV>;

/// Relies on `dashmap::DashMap::new`: a fresh map holds nothing.
#[verifier::external_body]
pub fn live_map_new() -> (m: LiveTaskMap)
    ensures
        forall|k: Seq<char>| !(#[trigger] live_contents(m).contains_key(k)),
{
    LiveTaskMap { inner: dashmap::DashMap::new() }
}

/// Relies on `dashmap::DashMap::insert`: stores the value under the key,
/// replacing any previous one.
#[verifier::external_body]
pub fn live_map_insert(m: &mut LiveTaskMap, task_id: &str, st: TransferTaskStatus)
    ensures
        live_contents(*final(m)) == live_contents(*old(m)).insert(task_id@, st@),
{
    m.inner.insert(task_id.to_owned(), st);
}

/// Relies on `dashmap::DashMap::get`: yields the value stored under the key,
/// if any.
#[verifier::external_body]
pub fn live_map_get(m: &LiveTaskMap, task_id: &str) -> (r: Option<TransferTaskStatus>)
    ensures
        match r {
            Some(st) => live_contents(*m).contains_key(task_id@) && st@ == live_contents(
                *m,
            )[task_id@],
            None => !live_contents(*m).contains_key(task_id@),
        },
{
    m.inner.get(task_id).map(|kv| kv.value().clone())
}

/// Relies on `dashmap::DashMap::remove`: deletes the entry under the key.
#[verifier::external_body]
pub fn live_map_remove(m: &mut LiveTaskMap, task_id: &str)
    ensures
        live_contents(*final(m)) == live_contents(*old(m)).remove(task_id@),
{
    m.inner.remove(task_id);
}

// ---------------------------------------------------------------------------
// Stop flags, keyed by task id. The shared cells never leave this registry,
// so every change of a flag goes through these functions.
// ---------------------------------------------------------------------------

/// The cooperative cancellation flags of the engine, keyed by task id.
#[verifier::external_body]
pub struct StopFlagMap {
    inner: dashmap::DashMap<String, std::sync::Arc<std::sync::atomic::AtomicBool>>,
}

/// What the stop-flag registry holds: the current value of each task's flag.
pub uninterp spec fn stop_contents(m: StopFlagMap) -> Map<Seq<char>, bool>;

/// Relies on `dashmap::DashMap::new`: a fresh map holds nothing.
#[verifier::external_body]
pub fn stop_map_new() -> (m: StopFlagMap)
    ensures
        forall|k: Seq<char>| !(#[trigger] stop_contents(m).contains_key(k)),
{
    StopFlagMap { inner: dashmap::DashMap::new() }
}

/// Relies on `dashmap::DashMap::insert` and `AtomicBool::new`: registers a
/// fresh flag, initialized to false, under the key.
#[verifier::external_body]
pub fn stop_map_register(m: &mut StopFlagMap, task_id: &str)
    ensures
        stop_contents(*final(m)) == stop_contents(*old(m)).insert(task_id@, false),
{
    m.inner.insert(
        task_id.to_owned(),
        std::sync::Arc::new(std::sync::atomic::AtomicBool::new(false)),
    );
}

/// Relies on `dashmap::DashMap::get` and `AtomicBool::store`: sets the flag
/// under the key to true if one is registered, and reports whether one was.
#[verifier::external_body]
pub fn stop_map_signal(m: &mut StopFlagMap, task_id: &str) -> (found: bool)
    ensures
        found == stop_contents(*old(m)).contains_key(task_id@),
        found ==> stop_contents(*final(m)) == stop_contents(*old(m)).insert(task_id@, true),
        !found ==> stop_contents(*final(m)) == stop_contents(*old(m)),
{
    match m.inner.get(task_id) {
        Some(cell) => {
            cell.store(true, std::sync::atomic::Ordering::SeqCst);
            true
        },
        None => false,
    }
}

/// Relies on `dashmap::DashMap::get` and `AtomicBool::load`: reads the flag
/// under the key, if one is registered.
#[verifier::external_body]
pub fn stop_map_read(m: &StopFlagMap, task_id: &str) -> (r: Option<bool>)
    ensures
        match r {
            Some(v) => stop_contents(*m).contains_key(task_id@) && v == stop_contents(
                *m,
            )[task_id@],
            None => !stop_contents(*m).contains_key(task_id@),
        },
{
    m.inner.get(task_id).map(|kv| kv.value().load(std::sync::atomic::Ordering::SeqCst))
}

/// Relies on `dashmap::DashMap::remove`: deletes the flag under the key.
#[verifier::external_body]
pub fn stop_map_unregister(m: &mut StopFlagMap, task_id: &str)
    ensures
        stop_contents(*final(m)) == stop_contents(*old(m)).remove(task_id@),
{
    m.inner.remove(task_id);
}

// ---------------------------------------------------------------------------
// Per-worker progress markers, keyed by (task id, worker id).
// ---------------------------------------------------------------------------

/// The last reported progress marker of each worker, keyed by task id and
/// worker id.
#[verifier::external_body]
pub struct PositionMap {
    inner: dashmap::DashMap<(String, String), FilePosition>,
}

/// What the position tracker holds, keyed by task id and worker id.
pub uninterp spec fn position_contents(m: PositionMap) -> Map<(Seq<char>, Seq<char>), FilePosition>;

/// Relies on `dashmap::DashMap::new`: a fresh map holds nothing.
#[verifier::external_body]
pub fn position_map_new() -> (m: PositionMap)
    ensures
        forall|k: (Seq<char>, Seq<char>)| !(#[trigger] position_contents(m).contains_key(k)),
{
    PositionMap { inner: dashmap::DashMap::new() }
}

/// Relies on `dashmap::DashMap::insert`: overwrites the marker under the key.
#[verifier::external_body]
pub fn position_map_report(m: &mut PositionMap, task_id: &str, worker_id: &str, pos: FilePosition)
    ensures
        position_contents(*final(m)) == position_contents(*old(m)).insert(
            (task_id@, worker_id@),
            pos,
        ),
{
    m.inner.insert((task_id.to_owned(), worker_id.to_owned()), pos);
}

/// Relies on `dashmap::DashMap::remove`: deletes the marker under the key.
#[verifier::external_body]
pub fn position_map_remove(m: &mut PositionMap, task_id: &str, worker_id: &str)
    ensures
        position_contents(*final(m)) == position_contents(*old(m)).remove((task_id@, worker_id@)),
{
    m.inner.remove(&(task_id.to_owned(), worker_id.to_owned()));
}

/// Relies on `dashmap::DashMap::iter`: yields every entry exactly once, in no
/// fixed order.
#[verifier::external_body]
pub fn position_map_entries(m: &PositionMap) -> (r: Vec<(String, String, FilePosition)>)
    ensures
        forall|i: int|
            0 <= i < r@.len() ==> position_contents(*m).contains_key(
                ((#[trigger] r@[i]).0@, r@[i].1@),
            ) && position_contents(*m)[(r@[i].0@, r@[i].1@)] == r@[i].2,
        forall|k: (Seq<char>, Seq<char>)|
            position_contents(*m).contains_key(k) ==> exists|i: int|
                0 <= i < r@.len() && ((#[trigger] r@[i]).0@, r@[i].1@) == k,
        forall|i: int, j: int|
            0 <= i < j < r@.len() ==> ((#[trigger] r@[i]).0@, r@[i].1@) != ((#[trigger] r@[j]).0@,
            r@[j].1@),
{
    m.inner.iter().map(|kv| (kv.key().0.clone(), kv.key().1.clone(), *kv.value())).collect()
}

// ---------------------------------------------------------------------------
// Per-task worker groups, keyed by task id.
// ---------------------------------------------------------------------------

/// The worker ids of one task, partitioned by worker category.
#[derive(Clone, Debug)]
pub struct WorkerGroup {
    pub control: Vec<String>,
    pub execution: Vec<String>,
    pub large_object: Vec<String>,
}

/// Mathematical view of `WorkerGroup`.
pub struct WorkerGroupV {
    pub control: Seq<Seq<char>>,
    pub execution: Seq<Seq<char>>,
    pub large_object: Seq<Seq<char>>,
}

impl View for WorkerGroup {
    type V = WorkerGroupV;

    open spec fn view(&self) -> WorkerGroupV {
        WorkerGroupV {
            control: self.control.deep_view(),
            execution: self.execution.deep_view(),
            large_object: self.large_object.deep_view(),
        }
    }
}

impl WorkerGroup {
    /// A group with no workers in any category.
    pub fn empty() -> (g: WorkerGroup)
        ensures
            g@.control.len() == 0,
            g@.execution.len() == 0,
            g@.large_object.len() == 0,
    {
        WorkerGroup { control: Vec::new(), execution: Vec::new(), large_object: Vec::new() }
    }
}

/// The worker groups of the live tasks, keyed by task id.
#[verifier::external_body]
pub struct ExecGroupMap {
    inner: dashmap::DashMap<String, WorkerGroup>,
}

/// What the execution registry holds, keyed by task id.
pub uninterp spec fn group_contents(m: ExecGroupMap) -> Map<Seq<char>, WorkerGroupV>;

/// Relies on `dashmap::DashMap::new`: a fresh map holds nothing.
#[verifier::external_body]
pub fn group_map_new() -> (m: ExecGroupMap)
    ensures
        forall|k: Seq<char>| !(#[trigger] group_contents(m).contains_key(k)),
{
    ExecGroupMap { inner: dashmap::DashMap::new() }
}

/// Relies on `dashmap::DashMap::insert`: stores the group under the key,
/// replacing any previous one.
#[verifier::external_body]
pub fn group_map_insert(m: &mut ExecGroupMap, task_id: &str, g: WorkerGroup)
    ensures
        group_contents(*final(m)) == group_contents(*old(m)).insert(task_id@, g@),
{
    m.inner.insert(task_id.to_owned(), g);
}

/// Relies on `dashmap::DashMap::get`: yields the group stored under the key,
/// if any.
#[verifier::external_body]
pub fn group_map_get(m: &ExecGroupMap, task_id: &str) -> (r: Option<WorkerGroup>)
    ensures
        match r {
            Some(g) => group_contents(*m).contains_key(task_id@) && g@ == group_contents(
                *m,
            )[task_id@],
            None => !group_contents(*m).contains_key(task_id@),
        },
{
    m.inner.get(task_id).map(|kv| kv.value().clone())
}

/// Relies on `dashmap::DashMap::remove`: deletes the group under the key.
#[verifier::external_body]
pub fn group_map_remove(m: &mut ExecGroupMap, task_id: &str)
    ensures
        group_contents(*final(m)) == group_contents(*old(m)).remove(task_id@),
{
    m.inner.remove(task_id);
}

} // verus!
