//! Data model of the engine: task definitions, lifecycle states, progress
//! markers and checkpoints, together with their mathematical views.

use vstd::prelude::*;

verus! {

/// A worker's furthest confirmed progress marker inside its partition of work.
#[derive(Clone, Copy, PartialEq, Eq, Structural, Debug)]
pub struct FilePosition {
    pub offset: u64,
    pub line_num: u64,
}

/// Why a task reached the `Stopped` state.
#[derive(Clone, Debug, PartialEq)]
pub enum StopReason {
    UserRequested,
    Completed,
    Failed(String),
    ProcessTerminating,
}

/// Mathematical view of `StopReason`.
pub enum StopReasonV {
    UserRequested,
    Completed,
    Failed(Seq<char>),
    ProcessTerminating,
}

impl View for StopReason {
    type V = StopReasonV;

    open spec fn view(&self) -> StopReasonV {
        match self {
            StopReason::UserRequested => StopReasonV::UserRequested,
            StopReason::Completed => StopReasonV::Completed,
            StopReason::Failed(detail) => StopReasonV::Failed(detail@),
            StopReason::ProcessTerminating => StopReasonV::ProcessTerminating,
        }
    }
}

/// Lifecycle state of a task: `Starting -> Running -> Stopping -> Stopped`.
/// `Stopped` is terminal and carries the reason.
#[derive(Clone, Debug, PartialEq)]
pub enum TaskLifeState {
    Starting,
    Running,
    Stopping,
    Stopped(StopReason),
}

/// Mathematical view of `TaskLifeState`.
pub enum LifeStateV {
    Starting,
    Running,
    Stopping,
    Stopped(StopReasonV),
}

impl View for TaskLifeState {
    type V = LifeStateV;

    open spec fn view(&self) -> LifeStateV {
        match self {
            TaskLifeState::Starting => LifeStateV::Starting,
            TaskLifeState::Running => LifeStateV::Running,
            TaskLifeState::Stopping => LifeStateV::Stopping,
            TaskLifeState::Stopped(r) => LifeStateV::Stopped(r@),
        }
    }
}

impl TaskLifeState {
    /// Whether this state is `Starting`.
    pub fn is_starting(&self) -> (r: bool)
        ensures
            r == (self@ is Starting),
    {
        matches!(self, TaskLifeState::Starting)
    }

    /// Whether this state is the terminal `Stopped` state.
    pub fn is_stopped(&self) -> (r: bool)
        ensures
            r == (self@ is Stopped),
    {
        matches!(self, TaskLifeState::Stopped(_))
    }
}

/// Persisted status record of a task; one per task id in the status namespace.
#[derive(Clone, Debug, PartialEq)]
pub struct TaskStatus {
    pub task_id: String,
    pub start_time: u64,
    pub status: TaskLifeState,
}

/// Mathematical view of `TaskStatus`.
pub struct TaskStatusV {
    pub task_id: Seq<char>,
    pub start_time: u64,
    pub status: LifeStateV,
}

impl View for TaskStatus {
    type V = TaskStatusV;

    open spec fn view(&self) -> TaskStatusV {
        TaskStatusV { task_id: self.task_id@, start_time: self.start_time, status: self.status@ }
    }
}

impl TaskStatus {
    /// Whether the persisted state is `Starting`.
    pub fn is_starting(&self) -> (r: bool)
        ensures
            r == (self@.status is Starting),
    {
        self.status.is_starting()
    }

    /// Whether the persisted state is the terminal `Stopped` state.
    pub fn is_stopped(&self) -> (r: bool)
        ensures
            r == (self@.status is Stopped),
    {
        self.status.is_stopped()
    }
}

/// Live, in-memory status of a task; exists only while the task is live.
#[derive(Clone, Debug, PartialEq)]
pub struct TransferTaskStatus {
    pub task_id: String,
    pub status: TaskLifeState,
}

/// Mathematical view of `TransferTaskStatus`.
pub struct TransferTaskStatusV {
    pub task_id: Seq<char>,
    pub status: LifeStateV,
}

impl View for TransferTaskStatus {
    type V = TransferTaskStatusV;

    open spec fn view(&self) -> TransferTaskStatusV {
        TransferTaskStatusV { task_id: self.task_id@, status: self.status@ }
    }
}

/// Durable record of the safe resume position of a task.
#[derive(Clone, Debug, PartialEq)]
pub struct CheckPoint {
    pub task_id: String,
    pub modify_checkpoint_timestamp: i128,
    pub executing_file_position: FilePosition,
}

/// Mathematical view of `CheckPoint`.
pub struct CheckPointV {
    pub task_id: Seq<char>,
    pub modify_checkpoint_timestamp: int,
    pub executing_file_position: FilePosition,
}

impl View for CheckPoint {
    type V = CheckPointV;

    open spec fn view(&self) -> CheckPointV {
        CheckPointV {
            task_id: self.task_id@,
            modify_checkpoint_timestamp: self.modify_checkpoint_timestamp as int,
            executing_file_position: self.executing_file_position,
        }
    }
}

/// Configuration shared by every task kind: the unique task id, the metadata
/// directory derived for it, and the source and target of the work.
#[derive(Clone, Debug, PartialEq)]
pub struct TaskDef {
    pub task_id: String,
    pub meta_dir: String,
    pub source: String,
    pub target: String,
}

/// Mathematical view of `TaskDef`.
pub struct TaskDefV {
    pub task_id: Seq<char>,
    pub meta_dir: Seq<char>,
    pub source: Seq<char>,
    pub target: Seq<char>,
}

impl View for TaskDef {
    type V = TaskDefV;

    open spec fn view(&self) -> TaskDefV {
        TaskDefV {
            task_id: self.task_id@,
            meta_dir: self.meta_dir@,
            source: self.source@,
            target: self.target@,
        }
    }
}

/// A task definition: a closed variant type with one case per task kind.
#[derive(Clone, Debug, PartialEq)]
pub enum Task {
    Transfer(TaskDef),
    Compare(TaskDef),
}

/// Mathematical view of `Task`.
pub enum TaskV {
    Transfer(TaskDefV),
    Compare(TaskDefV),
}

impl View for Task {
    type V = TaskV;

    open spec fn view(&self) -> TaskV {
        match self {
            Task::Transfer(d) => TaskV::Transfer(d@),
            Task::Compare(d) => TaskV::Compare(d@),
        }
    }
}

/// The shared configuration of a task definition, in the view.
pub open spec fn task_def_of(t: TaskV) -> TaskDefV {
    match t {
        TaskV::Transfer(d) => d,
        TaskV::Compare(d) => d,
    }
}

impl Task {
    /// The shared configuration of this definition.
    pub fn def(&self) -> (d: &TaskDef)
        ensures
            d@ == task_def_of(self@),
    {
        match self {
            Task::Transfer(d) => d,
            Task::Compare(d) => d,
        }
    }

    /// The task id of this definition.
    pub fn task_id(&self) -> (r: &String)
        ensures
            r@ == task_def_of(self@).task_id,
    {
        &self.def().task_id
    }

    /// Overwrites the task id of this definition.
    pub fn set_task_id(&mut self, task_id: &str)
        ensures
            task_def_of(final(self)@) == (TaskDefV { task_id: task_id@, ..task_def_of(old(self)@) }),
            final(self)@ is Transfer <==> old(self)@ is Transfer,
    {
        match self {
            Task::Transfer(d) => d.task_id = task_id.to_owned(),
            Task::Compare(d) => d.task_id = task_id.to_owned(),
        }
    }

    /// Overwrites the metadata directory of this definition.
    pub fn set_meta_dir(&mut self, meta_dir: &str)
        ensures
            task_def_of(final(self)@) == (TaskDefV { meta_dir: meta_dir@, ..task_def_of(old(self)@) }),
            final(self)@ is Transfer <==> old(self)@ is Transfer,
    {
        match self {
            Task::Transfer(d) => d.meta_dir = meta_dir.to_owned(),
            Task::Compare(d) => d.meta_dir = meta_dir.to_owned(),
        }
    }
}

/// Errors of the engine's operations.
#[derive(Clone, Copy, PartialEq, Eq, Structural, Debug)]
pub enum EngineError {
    /// The task id is unknown to the queried namespace.
    NotFound,
    /// A start was requested for a task that is already live.
    AlreadyLive,
    /// A stop was requested for a task that is not live.
    NotLiving,
    /// A removal was requested for a task that is still live.
    StillLiving,
    /// The task definition is malformed.
    Validation,
    /// The persisted record could not be decoded.
    Store,
    /// A live task has no registered stop flag.
    StopFlagMissing,
    /// A metadata directory operation failed.
    Filesystem,
}

} // verus!
