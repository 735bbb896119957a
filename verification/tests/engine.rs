use task_engine::service::{
    gen_file_path, service_list_all_tasks, service_remove_task, service_show_task,
    service_start_task, service_stop_task, service_task_checkpoint, service_task_create,
    service_update_task,
};
use task_engine::store::{get_checkpoint, get_task, get_task_status, living_tasks,
    save_checkpoint_to_cf};
use task_engine::task_server::{
    finish_task, get_exec_joinset, get_live_transfer_task_status, log_out_living_task,
    min_position_for, reconcile_tasks_on_start, report_position, save_task_status,
    snapshot_living_tasks_checkpoints_to_cf, spawn_into, stop_flag_state, task_is_living,
    TasksStatusSaver, WorkerCategory,
};
use task_engine::tasks::{
    CheckPoint, EngineError, FilePosition, StopReason, Task, TaskDef, TaskLifeState,
    TransferTaskStatus,
};
use task_engine::EngineContext;

fn new_ctx() -> EngineContext {
    EngineContext::new("meta".to_string())
}

fn transfer(id: &str) -> Task {
    Task::Transfer(TaskDef {
        task_id: id.to_string(),
        meta_dir: String::new(),
        source: "s3://bucket/src".to_string(),
        target: "fs:///data/dst".to_string(),
    })
}

fn create_and_start(ctx: &mut EngineContext, id: &str, now: u64) {
    let mut task = transfer(id);
    service_task_create(ctx, &mut task).expect("create");
    service_start_task(ctx, id, now).expect("start");
}

#[test]
fn create_persists_definition_and_derives_meta_dir() {
    let mut ctx = new_ctx();
    let mut task = transfer("t1");
    let id = service_task_create(&mut ctx, &mut task).expect("create");
    assert_eq!(id, "t1");
    let stored = service_show_task(&ctx, "t1").expect("show");
    assert_eq!(stored.def().task_id, "t1");
    assert_eq!(stored.def().meta_dir, "meta/t1");
    assert_eq!(stored.def().source, "s3://bucket/src");
    assert_eq!(stored, task);
}

#[test]
fn create_rejects_empty_task_id() {
    let mut ctx = new_ctx();
    let mut task = transfer("");
    assert_eq!(
        service_task_create(&mut ctx, &mut task),
        Err(EngineError::Validation)
    );
}

#[test]
fn create_rejects_non_ascii_task_id() {
    let mut ctx = new_ctx();
    let mut task = transfer("t\u{e2}che");
    assert_eq!(
        service_task_create(&mut ctx, &mut task),
        Err(EngineError::Validation)
    );
}

#[test]
fn create_rejects_non_ascii_meta_root() {
    let mut ctx = EngineContext::new("m\u{e9}ta".to_string());
    let mut task = transfer("t1");
    assert_eq!(
        service_task_create(&mut ctx, &mut task),
        Err(EngineError::Validation)
    );
}

#[test]
fn second_start_before_stop_is_already_live() {
    let mut ctx = new_ctx();
    let mut task = transfer("t1");
    service_task_create(&mut ctx, &mut task).expect("create");
    service_start_task(&mut ctx, "t1", 7).expect("first start");
    assert!(task_is_living(&ctx, "t1"));
    assert_eq!(
        service_start_task(&mut ctx, "t1", 8).err(),
        Some(EngineError::AlreadyLive)
    );
}

#[test]
fn start_unknown_task_is_not_found() {
    let mut ctx = new_ctx();
    assert_eq!(
        service_start_task(&mut ctx, "missing", 1).err(),
        Some(EngineError::NotFound)
    );
}

#[test]
fn stop_never_started_task_is_not_living() {
    let mut ctx = new_ctx();
    assert_eq!(
        service_stop_task(&mut ctx, "ghost"),
        Err(EngineError::NotLiving)
    );
}

#[test]
fn checkpoint_round_trip_is_identity() {
    let mut ctx = new_ctx();
    let mut cp = CheckPoint {
        task_id: "t1".to_string(),
        modify_checkpoint_timestamp: 0,
        executing_file_position: FilePosition { offset: 500, line_num: 10 },
    };
    save_checkpoint_to_cf(&mut ctx, &mut cp, 42);
    assert_eq!(cp.modify_checkpoint_timestamp, 42);
    let back = get_checkpoint(&ctx, "t1").expect("read back");
    assert_eq!(back, cp);
    assert_eq!(service_task_checkpoint(&ctx, "t1").expect("service"), cp);
}

#[test]
fn checkpoint_of_unknown_task_is_not_found() {
    let ctx = new_ctx();
    assert_eq!(
        service_task_checkpoint(&ctx, "nope").err(),
        Some(EngineError::NotFound)
    );
}

#[test]
fn snapshot_reduces_offsets_to_minimum() {
    let mut ctx = new_ctx();
    create_and_start(&mut ctx, "t1", 3);
    let mut cp = CheckPoint {
        task_id: "t1".to_string(),
        modify_checkpoint_timestamp: 0,
        executing_file_position: FilePosition { offset: 0, line_num: 0 },
    };
    save_checkpoint_to_cf(&mut ctx, &mut cp, 3);
    report_position(&mut ctx, "t1", "w1", FilePosition { offset: 700, line_num: 7 });
    report_position(&mut ctx, "t1", "w2", FilePosition { offset: 300, line_num: 3 });
    report_position(&mut ctx, "t1", "w3", FilePosition { offset: 900, line_num: 9 });
    // a marker of another task must not influence the reduction
    report_position(&mut ctx, "t9", "w1", FilePosition { offset: 5, line_num: 1 });
    let min = min_position_for(&ctx, "t1");
    assert_eq!(min, FilePosition { offset: 300, line_num: 3 });
    snapshot_living_tasks_checkpoints_to_cf(&mut ctx, 100).expect("snapshot");
    let stored = get_checkpoint(&ctx, "t1").expect("checkpoint");
    assert_eq!(stored.executing_file_position.offset, 300);
    assert_eq!(stored.modify_checkpoint_timestamp, 100);
}

#[test]
fn progress_reports_are_idempotent_overwrites() {
    let mut ctx = new_ctx();
    report_position(&mut ctx, "t1", "w1", FilePosition { offset: 500, line_num: 5 });
    report_position(&mut ctx, "t1", "w1", FilePosition { offset: 200, line_num: 2 });
    // only the latest report of a worker counts
    assert_eq!(
        min_position_for(&ctx, "t1"),
        FilePosition { offset: 200, line_num: 2 }
    );
}

#[test]
fn snapshot_skips_task_without_checkpoint() {
    let mut ctx = new_ctx();
    create_and_start(&mut ctx, "t1", 3);
    report_position(&mut ctx, "t1", "w1", FilePosition { offset: 10, line_num: 1 });
    snapshot_living_tasks_checkpoints_to_cf(&mut ctx, 100).expect("snapshot");
    assert_eq!(get_checkpoint(&ctx, "t1").err(), Some(EngineError::NotFound));
}

#[test]
fn stop_twice_on_live_task_is_safe() {
    let mut ctx = new_ctx();
    create_and_start(&mut ctx, "t1", 3);
    assert_eq!(service_stop_task(&mut ctx, "t1"), Ok(()));
    assert_eq!(stop_flag_state(&ctx, "t1"), Some(true));
    // still live until workers drain: the second signal is a no-op
    assert_eq!(service_stop_task(&mut ctx, "t1"), Ok(()));
    assert_eq!(stop_flag_state(&ctx, "t1"), Some(true));
    finish_task(&mut ctx, "t1", StopReason::UserRequested).expect("finish");
    assert_eq!(
        service_stop_task(&mut ctx, "t1"),
        Err(EngineError::NotLiving)
    );
}

#[test]
fn stop_without_registered_flag_reports_missing_flag() {
    let mut ctx = new_ctx();
    save_task_status(
        &mut ctx,
        "t1",
        TransferTaskStatus { task_id: "t1".to_string(), status: TaskLifeState::Running },
    );
    assert_eq!(
        service_stop_task(&mut ctx, "t1"),
        Err(EngineError::StopFlagMissing)
    );
}

#[test]
fn finished_task_is_fully_torn_down() {
    let mut ctx = new_ctx();
    create_and_start(&mut ctx, "t1", 3);
    report_position(&mut ctx, "t1", "w1", FilePosition { offset: 11, line_num: 2 });
    finish_task(&mut ctx, "t1", StopReason::Completed).expect("finish");
    assert!(!task_is_living(&ctx, "t1"));
    assert_eq!(
        get_live_transfer_task_status(&ctx, "t1").err(),
        Some(EngineError::NotLiving)
    );
    assert_eq!(get_exec_joinset(&ctx, "t1").err(), Some(EngineError::NotFound));
    assert_eq!(stop_flag_state(&ctx, "t1"), None);
    // progress markers are pruned after teardown
    assert_eq!(
        min_position_for(&ctx, "t1"),
        FilePosition { offset: 0, line_num: 0 }
    );
    let status = get_task_status(&ctx, "t1").expect("status");
    assert_eq!(status.status, TaskLifeState::Stopped(StopReason::Completed));
}

#[test]
fn live_entry_in_stopped_state_is_not_living() {
    let mut ctx = new_ctx();
    save_task_status(
        &mut ctx,
        "t1",
        TransferTaskStatus {
            task_id: "t1".to_string(),
            status: TaskLifeState::Stopped(StopReason::Completed),
        },
    );
    assert!(!task_is_living(&ctx, "t1"));
    log_out_living_task(&mut ctx, "t1");
    assert!(!task_is_living(&ctx, "t1"));
}

#[test]
fn failure_detail_survives_the_status_record() {
    let mut ctx = new_ctx();
    create_and_start(&mut ctx, "t1", 3);
    finish_task(&mut ctx, "t1", StopReason::Failed("checksum mismatch".to_string()))
        .expect("finish");
    let status = get_task_status(&ctx, "t1").expect("status");
    assert_eq!(
        status.status,
        TaskLifeState::Stopped(StopReason::Failed("checksum mismatch".to_string()))
    );
}

#[test]
fn non_ascii_failure_detail_is_rejected() {
    let mut ctx = new_ctx();
    create_and_start(&mut ctx, "t1", 3);
    assert_eq!(
        finish_task(&mut ctx, "t1", StopReason::Failed("caf\u{e9}".to_string())),
        Err(EngineError::Validation)
    );
    assert!(task_is_living(&ctx, "t1"));
}

#[test]
fn start_records_starting_status_with_start_time() {
    let mut ctx = new_ctx();
    let mut task = transfer("t1");
    service_task_create(&mut ctx, &mut task).expect("create");
    service_start_task(&mut ctx, "t1", 77).expect("start");
    let status = get_task_status(&ctx, "t1").expect("status");
    assert_eq!(status.start_time, 77);
    assert_eq!(status.status, TaskLifeState::Starting);
    let live = get_live_transfer_task_status(&ctx, "t1").expect("live");
    assert_eq!(live.status, TaskLifeState::Starting);
}

#[test]
fn reconcile_marks_unfinished_tasks_process_terminating() {
    let mut ctx = new_ctx();
    create_and_start(&mut ctx, "t1", 5);
    create_and_start(&mut ctx, "t2", 6);
    finish_task(&mut ctx, "t1", StopReason::UserRequested).expect("finish t1");
    // a process restart: t2 never reached Stopped
    reconcile_tasks_on_start(&mut ctx).expect("reconcile");
    let s1 = get_task_status(&ctx, "t1").expect("t1");
    assert_eq!(s1.status, TaskLifeState::Stopped(StopReason::UserRequested));
    let s2 = get_task_status(&ctx, "t2").expect("t2");
    assert_eq!(s2.status, TaskLifeState::Stopped(StopReason::ProcessTerminating));
    assert_eq!(s2.start_time, 6);
    assert!(living_tasks(&ctx).expect("living").is_empty());
}

#[test]
fn end_to_end_transfer_lifecycle() {
    let mut ctx = new_ctx();
    let mut task = transfer("t1");
    service_task_create(&mut ctx, &mut task).expect("create");
    service_start_task(&mut ctx, "t1", 5).expect("start");
    let mut cp = CheckPoint {
        task_id: "t1".to_string(),
        modify_checkpoint_timestamp: 0,
        executing_file_position: FilePosition { offset: 0, line_num: 0 },
    };
    save_checkpoint_to_cf(&mut ctx, &mut cp, 5);
    report_position(&mut ctx, "t1", "w1", FilePosition { offset: 1000, line_num: 4 });
    report_position(&mut ctx, "t1", "w2", FilePosition { offset: 1500, line_num: 6 });
    snapshot_living_tasks_checkpoints_to_cf(&mut ctx, 15).expect("snapshot");
    let stored = get_checkpoint(&ctx, "t1").expect("checkpoint");
    assert_eq!(stored.executing_file_position.offset, 1000);
    service_stop_task(&mut ctx, "t1").expect("stop");
    finish_task(&mut ctx, "t1", StopReason::UserRequested).expect("finish");
    let status = get_task_status(&ctx, "t1").expect("status");
    assert_eq!(status.status, TaskLifeState::Stopped(StopReason::UserRequested));
    // restart: the terminal status is left untouched by reconciliation
    reconcile_tasks_on_start(&mut ctx).expect("reconcile");
    let after = get_task_status(&ctx, "t1").expect("status");
    assert_eq!(after.status, TaskLifeState::Stopped(StopReason::UserRequested));
    // the checkpoint still names the safe resume position
    let resumed = get_checkpoint(&ctx, "t1").expect("checkpoint");
    assert_eq!(resumed.executing_file_position.offset, 1000);
}

#[test]
fn update_task_rewrites_the_record() {
    let mut ctx = new_ctx();
    let mut task = transfer("t1");
    service_task_create(&mut ctx, &mut task).expect("create");
    let mut updated = Task::Transfer(TaskDef {
        task_id: String::new(),
        meta_dir: String::new(),
        source: "s3://bucket/other".to_string(),
        target: "fs:///data/dst".to_string(),
    });
    service_update_task(&mut ctx, "t1", &mut updated).expect("update");
    let stored = service_show_task(&ctx, "t1").expect("show");
    assert_eq!(stored.def().source, "s3://bucket/other");
    assert_eq!(stored.def().task_id, "t1");
    assert_eq!(stored.def().meta_dir, "meta/t1");
}

#[test]
fn remove_refuses_living_task() {
    let mut ctx = new_ctx();
    create_and_start(&mut ctx, "t1", 3);
    let ids = vec!["t1".to_string()];
    assert_eq!(
        service_remove_task(&mut ctx, &ids),
        Err(EngineError::StillLiving)
    );
    assert!(service_show_task(&ctx, "t1").is_ok());
}

#[test]
fn remove_deletes_definitions_and_yields_meta_dirs() {
    let mut ctx = new_ctx();
    let mut t1 = transfer("t1");
    let mut t2 = transfer("t2");
    service_task_create(&mut ctx, &mut t1).expect("create t1");
    service_task_create(&mut ctx, &mut t2).expect("create t2");
    let ids = vec!["t1".to_string(), "t2".to_string()];
    let dirs = service_remove_task(&mut ctx, &ids).expect("remove");
    assert_eq!(dirs, vec!["meta/t1".to_string(), "meta/t2".to_string()]);
    assert_eq!(service_show_task(&ctx, "t1").err(), Some(EngineError::NotFound));
    assert_eq!(service_show_task(&ctx, "t2").err(), Some(EngineError::NotFound));
}

#[test]
fn list_yields_every_stored_definition_in_key_order() {
    let mut ctx = new_ctx();
    // created out of order: the listing is by key, not by insertion
    for id in ["t2", "t10", "t1"] {
        let mut task = transfer(id);
        service_task_create(&mut ctx, &mut task).expect("create");
    }
    let rows = service_list_all_tasks(&ctx).expect("list");
    let ids: Vec<String> = rows.iter().map(|r| r.cf_id.clone()).collect();
    assert_eq!(
        ids,
        vec!["t1".to_string(), "t10".to_string(), "t2".to_string()]
    );
    for row in &rows {
        assert_eq!(&row.task.def().task_id, &row.cf_id);
    }
}

#[test]
fn corrupt_status_record_is_a_store_error() {
    let mut ctx = new_ctx();
    ctx.store.statuses.put("bad".to_string(), vec![1, 2, 3]);
    assert_eq!(
        get_task_status(&ctx, "bad").err(),
        Some(EngineError::Store)
    );
    assert_eq!(living_tasks(&ctx).err(), Some(EngineError::Store));
}

#[test]
fn corrupt_task_record_is_a_store_error() {
    let mut ctx = new_ctx();
    ctx.store.tasks.put("bad".to_string(), vec![9, 9]);
    assert_eq!(get_task(&ctx, "bad").err(), Some(EngineError::Store));
    assert_eq!(
        service_list_all_tasks(&ctx).err(),
        Some(EngineError::Store)
    );
}

#[test]
fn gen_file_path_joins_with_slash() {
    assert_eq!(gen_file_path("meta", "t1", ""), "meta/t1");
    assert_eq!(gen_file_path("a", "b", ".lock"), "a/b.lock");
}

#[test]
fn spawned_workers_are_recorded_by_category() {
    let mut ctx = new_ctx();
    create_and_start(&mut ctx, "t1", 3);
    assert!(spawn_into(&mut ctx, "t1", WorkerCategory::Control, "root"));
    assert!(spawn_into(&mut ctx, "t1", WorkerCategory::Execution, "w1"));
    assert!(spawn_into(&mut ctx, "t1", WorkerCategory::Execution, "w2"));
    assert!(spawn_into(&mut ctx, "t1", WorkerCategory::LargeObject, "big1"));
    let group = get_exec_joinset(&ctx, "t1").expect("group");
    assert_eq!(group.control, vec!["root".to_string()]);
    assert_eq!(group.execution, vec!["w1".to_string(), "w2".to_string()]);
    assert_eq!(group.large_object, vec!["big1".to_string()]);
    // a task without a group records nothing
    assert!(!spawn_into(&mut ctx, "t9", WorkerCategory::Control, "root"));
}

#[test]
fn status_saver_keeps_its_interval() {
    let saver = TasksStatusSaver::new(10);
    assert_eq!(saver.interval, 10);
}
