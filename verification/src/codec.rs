//! Fixed-schema binary encoding of the persisted records: task definitions,
//! status records and checkpoints. Strings are length-prefixed ASCII; integers
//! are little-endian. Decoding is total and rejects malformed bytes.

use vstd::prelude::*;
use vstd::bytes::*;
use vstd::slice::{slice_index_get, slice_subrange};
use vstd::string::*;
use vstd::utf8::is_ascii_chars;

use crate::tasks::{
    FilePosition, LifeStateV, StopReason, StopReasonV, Task, TaskDef, TaskDefV, TaskLifeState,
    TaskStatus, TaskV,
};

verus! {

/// One byte per ASCII character.
pub open spec fn chars_to_bytes(s: Seq<char>) -> Seq<u8> {
    s.map_values(|c: char| c as u8)
}

/// One character per byte.
pub open spec fn bytes_to_chars(b: Seq<u8>) -> Seq<char> {
    b.map_values(|x: u8| x as char)
}

/// Every byte is an ASCII code point.
pub open spec fn ascii_bytes(b: Seq<u8>) -> bool {
    forall|i: int| 0 <= i < b.len() ==> b[i] < 128
}

/// A string that the record format can carry: ASCII, with a length that fits
/// the length prefix.
pub open spec fn wf_str(s: Seq<char>) -> bool {
    &&& is_ascii_chars(s)
    &&& s.len() < 0x10000000000000000
}

/// ASCII characters survive the byte conversion unchanged, and the bytes
/// they produce are ASCII.
pub proof fn lemma_chars_bytes_round_trip(s: Seq<char>)
    requires
        is_ascii_chars(s),
    ensures
        bytes_to_chars(chars_to_bytes(s)) =~= s,
        ascii_bytes(chars_to_bytes(s)),
{
    assert forall|i: int| 0 <= i < s.len() implies chars_to_bytes(s)[i] < 128 by {
        assert('\0' <= s[i] <= '\u{7f}');
    }
    assert forall|i: int| 0 <= i < s.len() implies bytes_to_chars(chars_to_bytes(s))[i] == s[i] by {
        assert('\0' <= s[i] <= '\u{7f}');
    }
}

/// A length-prefixed ASCII string field.
pub open spec fn encode_str(s: Seq<char>) -> Seq<u8> {
    spec_u64_to_le_bytes(s.len() as u64) + chars_to_bytes(s)
}

/// Reads one string field from the front; yields the string and the rest.
pub open spec fn decode_str_pre(b: Seq<u8>) -> Option<(Seq<char>, Seq<u8>)> {
    if b.len() >= 8 {
        let n = spec_u64_from_le_bytes(b.subrange(0, 8)) as int;
        if 8 + n <= b.len() && ascii_bytes(b.subrange(8, 8 + n)) {
            Some((bytes_to_chars(b.subrange(8, 8 + n)), b.subrange(8 + n, b.len() as int)))
        } else {
            None
        }
    } else {
        None
    }
}

/// Decoding an encoded string field from the front of a buffer yields the
/// string itself and leaves exactly the trailing bytes.
pub proof fn lemma_decode_encode_str(s: Seq<char>, rest: Seq<u8>)
    requires
        wf_str(s),
    ensures
        decode_str_pre(encode_str(s) + rest) == Some((s, rest)),
{
    lemma_auto_spec_u64_to_from_le_bytes();
    lemma_chars_bytes_round_trip(s);
    let b = encode_str(s) + rest;
    let n = s.len() as int;
    assert(b.subrange(0, 8) =~= spec_u64_to_le_bytes(s.len() as u64));
    assert(spec_u64_from_le_bytes(b.subrange(0, 8)) == s.len() as u64);
    assert(b.subrange(8, 8 + n) =~= chars_to_bytes(s));
    assert(b.subrange(8 + n, b.len() as int) =~= rest);
    assert(bytes_to_chars(b.subrange(8, 8 + n)) =~= s);
}

/// Appends one string field to `out`.
pub fn encode_str_push(s: &str, out: &mut Vec<u8>)
    requires
        s.is_ascii(),
    ensures
        final(out)@ == old(out)@ + encode_str(s@),
{
    proof {
        broadcast use vstd::string::is_ascii_spec_bytes;

    }
    let n = s.unicode_len();
    let mut lb = u64_to_le_bytes(n as u64);
    out.append(&mut lb);
    let mut sb = s.as_bytes_vec();
    proof {
        assert(sb@ =~= chars_to_bytes(s@));
    }
    out.append(&mut sb);
}

/// Builds an owned string from ASCII bytes.
///
/// Relies on `String::from_utf8_lossy`: bytes below 128 are valid UTF-8 and
/// decode one-to-one into the characters with the same code points.
#[verifier::external_body]
fn ascii_bytes_to_string(v: &[u8]) -> (r: String)
    requires
        ascii_bytes(v@),
    ensures
        r@ == bytes_to_chars(v@),
{
    String::from_utf8_lossy(v).into_owned()
}

/// Whether every byte of `v` is an ASCII code point.
fn all_ascii(v: &[u8]) -> (r: bool)
    ensures
        r == ascii_bytes(v@),
{
    let n = v.len();
    let mut j: usize = 0;
    while j < n
        invariant
            j <= n,
            n == v@.len(),
            forall|k: int| 0 <= k < j ==> v@[k] < 128,
        decreases n - j,
    {
        if *slice_index_get(v, j) >= 128 {
            return false;
        }
        j += 1;
    }
    true
}

/// Reads one string field from the front of `b`; yields the string and the
/// unread rest.
pub fn decode_str_take<'a>(b: &'a [u8]) -> (r: Option<(String, &'a [u8])>)
    ensures
        r is Some <==> decode_str_pre(b@) is Some,
        r matches Some((s, rest)) ==> decode_str_pre(b@) == Some((s@, rest@)),
{
    proof {
        lemma_auto_spec_u64_to_from_le_bytes();
    }
    if b.len() < 8 {
        return None;
    }
    let lb = slice_subrange(b, 0, 8);
    proof {
        assert(lb@ =~= b@.subrange(0, 8));
    }
    let n64 = u64_from_le_bytes(lb);
    if n64 > (b.len() - 8) as u64 {
        return None;
    }
    let n = n64 as usize;
    let sb = slice_subrange(b, 8, 8 + n);
    proof {
        assert(sb@ =~= b@.subrange(8, 8 + n as int));
    }
    if !all_ascii(sb) {
        return None;
    }
    let s = ascii_bytes_to_string(sb);
    let rest = slice_subrange(b, 8 + n, b.len());
    proof {
        assert(rest@ =~= b@.subrange(8 + n as int, b@.len() as int));
    }
    Some((s, rest))
}

// ---------------------------------------------------------------------------
// Checkpoint records: timestamp, offset, line number; 32 bytes.
// ---------------------------------------------------------------------------

/// A checkpoint record carries a non-negative timestamp.
pub open spec fn wf_cp_fields(ts: i128) -> bool {
    0 <= ts
}

/// The bytes of a checkpoint record (the task id is the record's key).
pub open spec fn cp_record_bytes(ts: i128, pos: FilePosition) -> Seq<u8> {
    spec_u128_to_le_bytes(ts as u128) + spec_u64_to_le_bytes(pos.offset) + spec_u64_to_le_bytes(
        pos.line_num,
    )
}

/// Decodes a checkpoint record.
pub open spec fn decode_cp_record(b: Seq<u8>) -> Option<(i128, FilePosition)> {
    if b.len() == 32 {
        let tsu = spec_u128_from_le_bytes(b.subrange(0, 16));
        if tsu <= i128::MAX as u128 {
            Some(
                (
                    tsu as i128,
                    FilePosition {
                        offset: spec_u64_from_le_bytes(b.subrange(16, 24)),
                        line_num: spec_u64_from_le_bytes(b.subrange(24, 32)),
                    },
                ),
            )
        } else {
            None
        }
    } else {
        None
    }
}

/// A checkpoint record decodes back to exactly the timestamp and position
/// it was encoded from.
pub proof fn lemma_cp_record_round_trip(ts: i128, pos: FilePosition)
    requires
        wf_cp_fields(ts),
    ensures
        decode_cp_record(cp_record_bytes(ts, pos)) == Some((ts, pos)),
{
    lemma_auto_spec_u64_to_from_le_bytes();
    lemma_auto_spec_u128_to_from_le_bytes();
    let b = cp_record_bytes(ts, pos);
    assert(b.subrange(0, 16) =~= spec_u128_to_le_bytes(ts as u128));
    assert(b.subrange(16, 24) =~= spec_u64_to_le_bytes(pos.offset));
    assert(b.subrange(24, 32) =~= spec_u64_to_le_bytes(pos.line_num));
}

/// Encodes the fields of a checkpoint record.
pub fn encode_checkpoint_record(ts: i128, pos: FilePosition) -> (r: Vec<u8>)
    requires
        wf_cp_fields(ts),
    ensures
        r@ == cp_record_bytes(ts, pos),
{
    let mut out = u128_to_le_bytes(ts as u128);
    let mut ob = u64_to_le_bytes(pos.offset);
    out.append(&mut ob);
    let mut nb = u64_to_le_bytes(pos.line_num);
    out.append(&mut nb);
    out
}

/// Decodes the fields of a checkpoint record.
pub fn decode_checkpoint_record(b: &[u8]) -> (r: Option<(i128, FilePosition)>)
    ensures
        r == decode_cp_record(b@),
{
    if b.len() != 32 {
        return None;
    }
    let tsb = slice_subrange(b, 0, 16);
    proof {
        assert(tsb@ =~= b@.subrange(0, 16));
    }
    let tsu = u128_from_le_bytes(tsb);
    if tsu > i128::MAX as u128 {
        return None;
    }
    let ob = slice_subrange(b, 16, 24);
    proof {
        assert(ob@ =~= b@.subrange(16, 24));
    }
    let offset = u64_from_le_bytes(ob);
    let nb = slice_subrange(b, 24, 32);
    proof {
        assert(nb@ =~= b@.subrange(24, 32));
    }
    let line_num = u64_from_le_bytes(nb);
    Some((tsu as i128, FilePosition { offset, line_num }))
}

// ---------------------------------------------------------------------------
// Status records: start time, lifecycle state.
// ---------------------------------------------------------------------------

/// A state the record format can carry: a failure detail must be a
/// well-formed string.
pub open spec fn wf_state(st: LifeStateV) -> bool {
    match st {
        LifeStateV::Stopped(StopReasonV::Failed(d)) => wf_str(d),
        _ => true,
    }
}

/// The bytes of a stop reason.
pub open spec fn reason_bytes(r: StopReasonV) -> Seq<u8> {
    match r {
        StopReasonV::UserRequested => seq![0u8],
        StopReasonV::Completed => seq![1u8],
        StopReasonV::Failed(d) => seq![2u8] + encode_str(d),
        StopReasonV::ProcessTerminating => seq![3u8],
    }
}

/// The bytes of a lifecycle state.
pub open spec fn state_bytes(st: LifeStateV) -> Seq<u8> {
    match st {
        LifeStateV::Starting => seq![0u8],
        LifeStateV::Running => seq![1u8],
        LifeStateV::Stopping => seq![2u8],
        LifeStateV::Stopped(r) => seq![3u8] + reason_bytes(r),
    }
}

/// The bytes of a status record (the task id is the record's key).
pub open spec fn status_record_bytes(start_time: u64, st: LifeStateV) -> Seq<u8> {
    spec_u64_to_le_bytes(start_time) + state_bytes(st)
}

/// Decodes a stop reason.
pub open spec fn decode_reason(b: Seq<u8>) -> Option<StopReasonV> {
    if b.len() >= 1 {
        if b[0] == 0 && b.len() == 1 {
            Some(StopReasonV::UserRequested)
        } else if b[0] == 1 && b.len() == 1 {
            Some(StopReasonV::Completed)
        } else if b[0] == 2 {
            match decode_str_pre(b.subrange(1, b.len() as int)) {
                Some((d, rest)) => if rest.len() == 0 {
                    Some(StopReasonV::Failed(d))
                } else {
                    None
                },
                None => None,
            }
        } else if b[0] == 3 && b.len() == 1 {
            Some(StopReasonV::ProcessTerminating)
        } else {
            None
        }
    } else {
        None
    }
}

/// Decodes a lifecycle state.
pub open spec fn decode_state(b: Seq<u8>) -> Option<LifeStateV> {
    if b.len() >= 1 {
        if b[0] == 0 && b.len() == 1 {
            Some(LifeStateV::Starting)
        } else if b[0] == 1 && b.len() == 1 {
            Some(LifeStateV::Running)
        } else if b[0] == 2 && b.len() == 1 {
            Some(LifeStateV::Stopping)
        } else if b[0] == 3 {
            match decode_reason(b.subrange(1, b.len() as int)) {
                Some(r) => Some(LifeStateV::Stopped(r)),
                None => None,
            }
        } else {
            None
        }
    } else {
        None
    }
}

/// Decodes the fields of a status record.
pub open spec fn decode_status_fields(b: Seq<u8>) -> Option<(u64, LifeStateV)> {
    if b.len() >= 8 {
        let t = spec_u64_from_le_bytes(b.subrange(0, 8));
        match decode_state(b.subrange(8, b.len() as int)) {
            Some(st) => Some((t, st)),
            None => None,
        }
    } else {
        None
    }
}

/// A stop reason decodes back to exactly the reason it was encoded from.
pub proof fn lemma_reason_round_trip(r: StopReasonV)
    requires
        wf_state(LifeStateV::Stopped(r)),
    ensures
        decode_reason(reason_bytes(r)) == Some(r),
{
    let b = reason_bytes(r);
    match r {
        StopReasonV::Failed(d) => {
            lemma_decode_encode_str(d, Seq::<u8>::empty());
            assert(b.subrange(1, b.len() as int) =~= encode_str(d) + Seq::<u8>::empty());
        },
        _ => {},
    }
}

/// A lifecycle state decodes back to exactly the state it was encoded from.
pub proof fn lemma_state_round_trip(st: LifeStateV)
    requires
        wf_state(st),
    ensures
        decode_state(state_bytes(st)) == Some(st),
{
    let b = state_bytes(st);
    match st {
        LifeStateV::Stopped(r) => {
            lemma_reason_round_trip(r);
            assert(b.subrange(1, b.len() as int) =~= reason_bytes(r));
        },
        _ => {},
    }
}

/// A status record decodes back to exactly the start time and state it was
/// encoded from.
pub proof fn lemma_status_record_round_trip(start_time: u64, st: LifeStateV)
    requires
        wf_state(st),
    ensures
        decode_status_fields(status_record_bytes(start_time, st)) == Some((start_time, st)),
{
    lemma_auto_spec_u64_to_from_le_bytes();
    lemma_state_round_trip(st);
    let b = status_record_bytes(start_time, st);
    assert(b.subrange(0, 8) =~= spec_u64_to_le_bytes(start_time));
    assert(b.subrange(8, b.len() as int) =~= state_bytes(st));
}

/// Encodes the fields of a status record.
pub fn encode_status_record(start_time: u64, st: &TaskLifeState) -> (r: Vec<u8>)
    requires
        wf_state(st@),
    ensures
        r@ == status_record_bytes(start_time, st@),
{
    let mut out = u64_to_le_bytes(start_time);
    match st {
        TaskLifeState::Starting => out.push(0),
        TaskLifeState::Running => out.push(1),
        TaskLifeState::Stopping => out.push(2),
        TaskLifeState::Stopped(r) => {
            out.push(3);
            match r {
                StopReason::UserRequested => out.push(0),
                StopReason::Completed => out.push(1),
                StopReason::Failed(d) => {
                    out.push(2);
                    encode_str_push(d.as_str(), &mut out);
                },
                StopReason::ProcessTerminating => out.push(3),
            }
        },
    }
    proof {
        assert(out@ =~= status_record_bytes(start_time, st@));
    }
    out
}

/// Decodes a lifecycle state from record bytes.
fn decode_state_take(b: &[u8]) -> (r: Option<TaskLifeState>)
    ensures
        r is Some <==> decode_state(b@) is Some,
        r matches Some(st) ==> decode_state(b@) == Some(st@),
{
    if b.len() < 1 {
        return None;
    }
    let tag = *slice_index_get(b, 0);
    if tag == 0 && b.len() == 1 {
        Some(TaskLifeState::Starting)
    } else if tag == 1 && b.len() == 1 {
        Some(TaskLifeState::Running)
    } else if tag == 2 && b.len() == 1 {
        Some(TaskLifeState::Stopping)
    } else if tag == 3 {
        let rb = slice_subrange(b, 1, b.len());
        proof {
            assert(rb@ =~= b@.subrange(1, b@.len() as int));
        }
        if rb.len() < 1 {
            return None;
        }
        let rtag = *slice_index_get(rb, 0);
        if rtag == 0 && rb.len() == 1 {
            Some(TaskLifeState::Stopped(StopReason::UserRequested))
        } else if rtag == 1 && rb.len() == 1 {
            Some(TaskLifeState::Stopped(StopReason::Completed))
        } else if rtag == 2 {
            let db = slice_subrange(rb, 1, rb.len());
            proof {
                assert(db@ =~= rb@.subrange(1, rb@.len() as int));
            }
            match decode_str_take(db) {
                Some((d, rest)) => {
                    if rest.len() == 0 {
                        Some(TaskLifeState::Stopped(StopReason::Failed(d)))
                    } else {
                        None
                    }
                },
                None => None,
            }
        } else if rtag == 3 && rb.len() == 1 {
            Some(TaskLifeState::Stopped(StopReason::ProcessTerminating))
        } else {
            None
        }
    } else {
        None
    }
}

/// Decodes a status record stored under `task_id`.
pub fn decode_status_record(task_id: &str, b: &[u8]) -> (r: Option<TaskStatus>)
    ensures
        r is Some <==> decode_status_fields(b@) is Some,
        r matches Some(ts) ==> decode_status_fields(b@) == Some((ts.start_time, ts.status@))
            && ts.task_id@ == task_id@,
{
    if b.len() < 8 {
        return None;
    }
    let tb = slice_subrange(b, 0, 8);
    proof {
        assert(tb@ =~= b@.subrange(0, 8));
    }
    let start_time = u64_from_le_bytes(tb);
    let sb = slice_subrange(b, 8, b.len());
    proof {
        assert(sb@ =~= b@.subrange(8, b@.len() as int));
    }
    match decode_state_take(sb) {
        Some(st) => Some(TaskStatus { task_id: task_id.to_owned(), start_time, status: st }),
        None => None,
    }
}

// ---------------------------------------------------------------------------
// Task definition records: kind tag, then four string fields.
// ---------------------------------------------------------------------------

/// A definition the record format can carry.
pub open spec fn wf_def(d: TaskDefV) -> bool {
    &&& wf_str(d.task_id)
    &&& wf_str(d.meta_dir)
    &&& wf_str(d.source)
    &&& wf_str(d.target)
}

/// A task definition the record format can carry.
pub open spec fn wf_task(t: TaskV) -> bool {
    wf_def(crate::tasks::task_def_of(t))
}

/// The bytes of the shared configuration.
pub open spec fn def_bytes(d: TaskDefV) -> Seq<u8> {
    encode_str(d.task_id) + encode_str(d.meta_dir) + encode_str(d.source) + encode_str(d.target)
}

/// The bytes of a task definition record.
pub open spec fn task_record_bytes(t: TaskV) -> Seq<u8> {
    match t {
        TaskV::Transfer(d) => seq![0u8] + def_bytes(d),
        TaskV::Compare(d) => seq![1u8] + def_bytes(d),
    }
}

/// Decodes the shared configuration; the whole input must be consumed.
pub open spec fn decode_def(b: Seq<u8>) -> Option<TaskDefV> {
    match decode_str_pre(b) {
        Some((task_id, b1)) => match decode_str_pre(b1) {
            Some((meta_dir, b2)) => match decode_str_pre(b2) {
                Some((source, b3)) => match decode_str_pre(b3) {
                    Some((target, b4)) => if b4.len() == 0 {
                        Some(TaskDefV { task_id, meta_dir, source, target })
                    } else {
                        None
                    },
                    None => None,
                },
                None => None,
            },
            None => None,
        },
        None => None,
    }
}

/// Decodes a task definition record.
pub open spec fn decode_task_record(b: Seq<u8>) -> Option<TaskV> {
    if b.len() >= 1 && (b[0] == 0 || b[0] == 1) {
        match decode_def(b.subrange(1, b.len() as int)) {
            Some(d) => Some(
                if b[0] == 0 {
                    TaskV::Transfer(d)
                } else {
                    TaskV::Compare(d)
                },
            ),
            None => None,
        }
    } else {
        None
    }
}

/// A shared configuration decodes back to exactly the fields it was encoded
/// from.
pub proof fn lemma_def_round_trip(d: TaskDefV)
    requires
        wf_def(d),
    ensures
        decode_def(def_bytes(d)) == Some(d),
{
    let b = def_bytes(d);
    let b1 = encode_str(d.meta_dir) + encode_str(d.source) + encode_str(d.target);
    let b2 = encode_str(d.source) + encode_str(d.target);
    let b3 = encode_str(d.target);
    assert(b =~= encode_str(d.task_id) + b1);
    lemma_decode_encode_str(d.task_id, b1);
    assert(b1 =~= encode_str(d.meta_dir) + b2);
    lemma_decode_encode_str(d.meta_dir, b2);
    assert(b2 =~= encode_str(d.source) + b3);
    lemma_decode_encode_str(d.source, b3);
    assert(b3 =~= encode_str(d.target) + Seq::<u8>::empty());
    lemma_decode_encode_str(d.target, Seq::<u8>::empty());
}

/// A task definition record decodes back to exactly the definition it was
/// encoded from: nothing is lost by persisting a definition.
pub proof fn lemma_task_record_round_trip(t: TaskV)
    requires
        wf_task(t),
    ensures
        decode_task_record(task_record_bytes(t)) == Some(t),
{
    let b = task_record_bytes(t);
    match t {
        TaskV::Transfer(d) => {
            lemma_def_round_trip(d);
            assert(b.subrange(1, b.len() as int) =~= def_bytes(d));
        },
        TaskV::Compare(d) => {
            lemma_def_round_trip(d);
            assert(b.subrange(1, b.len() as int) =~= def_bytes(d));
        },
    }
}

/// Encodes a task definition record.
pub fn encode_task_record(t: &Task) -> (r: Vec<u8>)
    requires
        wf_task(t@),
    ensures
        r@ == task_record_bytes(t@),
{
    let mut out: Vec<u8> = Vec::new();
    let d = match t {
        Task::Transfer(d) => {
            out.push(0);
            d
        },
        Task::Compare(d) => {
            out.push(1);
            d
        },
    };
    encode_str_push(d.task_id.as_str(), &mut out);
    encode_str_push(d.meta_dir.as_str(), &mut out);
    encode_str_push(d.source.as_str(), &mut out);
    encode_str_push(d.target.as_str(), &mut out);
    proof {
        assert(out@ =~= task_record_bytes(t@));
    }
    out
}

/// Decodes a task definition record.
pub fn decode_task_record_take(b: &[u8]) -> (r: Option<Task>)
    ensures
        r is Some <==> decode_task_record(b@) is Some,
        r matches Some(t) ==> decode_task_record(b@) == Some(t@),
{
    if b.len() < 1 {
        return None;
    }
    let tag = *slice_index_get(b, 0);
    if tag != 0 && tag != 1 {
        return None;
    }
    let db = slice_subrange(b, 1, b.len());
    proof {
        assert(db@ =~= b@.subrange(1, b@.len() as int));
    }
    let (task_id, b1) = match decode_str_take(db) {
        Some(x) => x,
        None => {
            return None;
        },
    };
    let (meta_dir, b2) = match decode_str_take(b1) {
        Some(x) => x,
        None => {
            return None;
        },
    };
    let (source, b3) = match decode_str_take(b2) {
        Some(x) => x,
        None => {
            return None;
        },
    };
    let (target, b4) = match decode_str_take(b3) {
        Some(x) => x,
        None => {
            return None;
        },
    };
    if b4.len() != 0 {
        return None;
    }
    let d = TaskDef { task_id, meta_dir, source, target };
    if tag == 0 {
        Some(Task::Transfer(d))
    } else {
        Some(Task::Compare(d))
    }
}

} // verus!
