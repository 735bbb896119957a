use task_engine::codec::{
    decode_checkpoint_record, decode_status_record, decode_task_record_take,
    encode_checkpoint_record, encode_status_record, encode_task_record,
};
use task_engine::tasks::{FilePosition, StopReason, Task, TaskDef, TaskLifeState};

fn sample_def() -> TaskDef {
    TaskDef {
        task_id: "t1".to_string(),
        meta_dir: "meta/t1".to_string(),
        source: "s3://bucket/src".to_string(),
        target: "fs:///data/dst".to_string(),
    }
}

#[test]
fn checkpoint_record_encodes_and_decodes() {
    let pos = FilePosition { offset: 500, line_num: 10 };
    let bytes = encode_checkpoint_record(42, pos);
    assert_eq!(bytes.len(), 32);
    assert_eq!(decode_checkpoint_record(&bytes), Some((42, pos)));
}

#[test]
fn checkpoint_record_of_wrong_length_is_rejected() {
    assert_eq!(decode_checkpoint_record(&[0u8; 31]), None);
    assert_eq!(decode_checkpoint_record(&[0u8; 33]), None);
    assert_eq!(decode_checkpoint_record(&[]), None);
}

#[test]
fn status_record_encodes_every_state() {
    for st in [
        TaskLifeState::Starting,
        TaskLifeState::Running,
        TaskLifeState::Stopping,
        TaskLifeState::Stopped(StopReason::UserRequested),
        TaskLifeState::Stopped(StopReason::Completed),
        TaskLifeState::Stopped(StopReason::Failed("disk full".to_string())),
        TaskLifeState::Stopped(StopReason::ProcessTerminating),
    ] {
        let bytes = encode_status_record(9, &st);
        let back = decode_status_record("t1", &bytes).expect("decode");
        assert_eq!(back.task_id, "t1");
        assert_eq!(back.start_time, 9);
        assert_eq!(back.status, st);
    }
}

#[test]
fn status_record_with_unknown_tag_is_rejected() {
    let mut bytes = encode_status_record(9, &TaskLifeState::Running);
    let last = bytes.len() - 1;
    bytes[last] = 250;
    assert_eq!(decode_status_record("t1", &bytes), None);
}

#[test]
fn truncated_status_record_is_rejected() {
    assert_eq!(decode_status_record("t1", &[1, 2, 3]), None);
}

#[test]
fn task_record_round_trips_both_kinds() {
    let transfer = Task::Transfer(sample_def());
    let bytes = encode_task_record(&transfer);
    assert_eq!(decode_task_record_take(&bytes), Some(transfer));
    let compare = Task::Compare(sample_def());
    let bytes = encode_task_record(&compare);
    assert_eq!(decode_task_record_take(&bytes), Some(compare));
}

#[test]
fn task_record_with_empty_fields_round_trips() {
    let task = Task::Transfer(TaskDef {
        task_id: String::new(),
        meta_dir: String::new(),
        source: String::new(),
        target: String::new(),
    });
    let bytes = encode_task_record(&task);
    assert_eq!(decode_task_record_take(&bytes), Some(task));
}

#[test]
fn task_record_with_trailing_bytes_is_rejected() {
    let mut bytes = encode_task_record(&Task::Transfer(sample_def()));
    bytes.push(0);
    assert_eq!(decode_task_record_take(&bytes), None);
}

#[test]
fn task_record_with_non_ascii_bytes_is_rejected() {
    let mut bytes = encode_task_record(&Task::Transfer(sample_def()));
    // overwrite the first character of the task id with a non-ASCII byte
    bytes[9] = 200;
    assert_eq!(decode_task_record_take(&bytes), None);
}

#[test]
fn task_record_with_unknown_kind_is_rejected() {
    let mut bytes = encode_task_record(&Task::Transfer(sample_def()));
    bytes[0] = 7;
    assert_eq!(decode_task_record_take(&bytes), None);
}
