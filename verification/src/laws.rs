//! Engine-wide laws: consequences of the operations' contracts that hold for
//! every task id and every engine state, stated and proved once.

use vstd::prelude::*;

use crate::codec::{cp_record_bytes, decode_cp_record, lemma_cp_record_round_trip};
use crate::task_server::is_min_for;
use crate::tasks::{FilePosition, LifeStateV, StopReasonV, TransferTaskStatusV};
use crate::EngineContext;

verus! {

/// After a successful `service_start_task` of `task_id`, the task is living.
/// A second start before any stop therefore returns `AlreadyLive`, by
/// `service_start_task`'s contract on a living task.
pub proof fn lemma_second_start_refused(pre: EngineContext, post: EngineContext, task_id: Seq<char>)
    requires
        post.live() == pre.live().insert(
            task_id,
            (TransferTaskStatusV { task_id, status: LifeStateV::Starting }),
        ),
    ensures
        post.is_living(task_id),
{
}

/// A task that was never started has no live entry, so it is not living:
/// `service_stop_task` on it therefore returns `NotLiving`, by its contract.
pub proof fn lemma_stop_never_started(ctx: EngineContext, task_id: Seq<char>)
    requires
        !ctx.live().contains_key(task_id),
    ensures
        !ctx.is_living(task_id),
{
}

/// Persisting a checkpoint and reading it back yields the identical value:
/// the stored record bytes decode to exactly the stamped timestamp and the
/// stored position, which is what `get_checkpoint` returns for the key.
pub proof fn lemma_checkpoint_round_trip(
    pre: EngineContext,
    post: EngineContext,
    task_id: Seq<char>,
    ts: i128,
    pos: FilePosition,
)
    requires
        0 <= ts,
        post.cp_ns() == pre.cp_ns().insert(task_id, cp_record_bytes(ts, pos)),
    ensures
        post.cp_ns().contains_key(task_id),
        decode_cp_record(post.cp_ns()[task_id]) == Some((ts, pos)),
{
    lemma_cp_record_round_trip(ts, pos);
}

/// The safe resume offset is determined: any two positions that satisfy the
/// minimum-reduction condition for the same task carry the same offset.
pub proof fn lemma_min_offset_unique(
    trk: Map<(Seq<char>, Seq<char>), FilePosition>,
    task_id: Seq<char>,
    p1: FilePosition,
    p2: FilePosition,
)
    requires
        is_min_for(trk, task_id, p1),
        is_min_for(trk, task_id, p2),
    ensures
        p1.offset == p2.offset,
{
    if crate::task_server::has_worker_entry(trk, task_id) {
        let k1 = choose|k: (Seq<char>, Seq<char>)|
            #[trigger] trk.contains_key(k) && k.0 == task_id && trk[k] == p1;
        let k2 = choose|k: (Seq<char>, Seq<char>)|
            #[trigger] trk.contains_key(k) && k.0 == task_id && trk[k] == p2;
        assert(p1.offset <= trk[k2].offset);
        assert(p2.offset <= trk[k1].offset);
    }
}

/// Stopping a live task twice is safe: a first successful stop leaves the
/// task living with its flag set, so a second stop succeeds by
/// `service_stop_task`'s contract, and setting the flag again changes
/// nothing.
pub proof fn lemma_stop_idempotent(pre: EngineContext, mid: EngineContext, task_id: Seq<char>)
    requires
        pre.is_living(task_id),
        pre.stops().contains_key(task_id),
        mid.live() == pre.live(),
        mid.stops() == pre.stops().insert(task_id, true),
    ensures
        mid.is_living(task_id),
        mid.stops().contains_key(task_id),
        mid.stops().insert(task_id, true) =~= mid.stops(),
{
}

/// After a task fully tears down, it is not living and the execution
/// registry holds no entry for it.
pub proof fn lemma_stopped_not_living(pre: EngineContext, post: EngineContext, task_id: Seq<char>)
    requires
        post.live() == pre.live().remove(task_id),
        post.groups() == pre.groups().remove(task_id),
    ensures
        !post.is_living(task_id),
        !post.groups().contains_key(task_id),
{
}

/// A live entry already in the terminal `Stopped` state does not count as
/// living.
pub proof fn lemma_stopped_entry_not_living(
    ctx: EngineContext,
    task_id: Seq<char>,
    reason: StopReasonV,
)
    requires
        ctx.live().contains_key(task_id),
        ctx.live()[task_id].status == LifeStateV::Stopped(reason),
    ensures
        !ctx.is_living(task_id),
{
}

} // verus!
