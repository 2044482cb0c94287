//! Shared data model of the CI server: jobs, executions, schedules and the
//! status of an execution.
use vstd::prelude::*;

verus! {

/// Definition of a job as submitted by a user.
#[derive(Debug, Clone)]
pub struct Job {
    /// Path to the repository
    pub source: String,
    /// Image to run the job in
    pub image: String,
    /// Command to run
    pub command: String,
    /// Arguments passed to the command
    pub arguments: Vec<String>,
    /// Working directory, relative to source root
    pub working_directory: String,
    /// Environment variables for execution
    pub environment: Vec<EnvironmentDefinition>,
}

/// One environment variable of a job.
#[derive(Debug, Clone)]
pub struct EnvironmentDefinition {
    /// Name of the variable to set
    pub key: String,
    /// Value of the variable to set
    pub value: String,
}

/// A stored job: its identifier, its name and where its definition lives.
#[derive(Debug, Clone)]
pub struct JobPointer {
    /// Unique identifier for the job
    pub id: i64,
    /// A human readable identifier for the job
    pub name: String,
    /// Git repository holding the job
    pub source: String,
    /// Path of the job definition inside the repository
    pub path: String,
}

/// Request to create a job.
#[derive(Debug, Clone)]
pub struct JobCreationRequest {
    /// A human readable identifier for the job
    pub name: String,
    /// Definition of the job
    pub definition: Job,
}

/// Outcome of one stage: its exit status and where its output was written.
#[derive(Debug)]
pub struct StageExecutionSummary {
    pub status: i32,
    pub logs: WrittenResult,
}

/// Paths of the files that hold the output of a stage.
#[derive(Debug)]
pub struct WrittenResult {
    pub stdout_path: String,
    pub stderr_path: String,
}

/// Short description of an execution.
#[derive(Debug, Clone)]
pub struct ExecutionSummary {
    pub id: i64,
    pub start_time: String,
}

/// Full description of an execution.
#[derive(Debug, Clone)]
pub struct ExecutionDetails {
    pub execution_id: i64,
    pub job_name: String,
    pub start_time: String,
    pub status: Option<ExecutionStatus>,
    pub stdout: Option<String>,
    pub stderr: Option<String>,
}

/// Final status of an execution.
#[derive(Debug, Clone, Copy, PartialEq, Eq, Structural)]
pub enum ExecutionStatus {
    Success,
    Failed,
    InvalidConfig,
}

/// The integer under which each status is stored.
pub open spec fn status_code(status: ExecutionStatus) -> int {
    match status {
        ExecutionStatus::Success => 0,
        ExecutionStatus::Failed => 1,
        ExecutionStatus::InvalidConfig => 2,
    }
}

/// The status stored under a code: 0 is a success, 1 a failure and 2 an
/// invalid configuration.
pub open spec fn status_of_code(code: int) -> ExecutionStatus {
    if code == 0 {
        ExecutionStatus::Success
    } else if code == 1 {
        ExecutionStatus::Failed
    } else {
        ExecutionStatus::InvalidConfig
    }
}

impl ExecutionStatus {
    /// Decodes a stored status; only the codes 0, 1 and 2 exist.
    pub fn from(value: i64) -> (status: ExecutionStatus)
        requires
            0 <= value <= 2,
        ensures
            status == status_of_code(value as int),
            status_code(status) == value,
    {
        if value == 0 {
            ExecutionStatus::Success
        } else if value == 1 {
            ExecutionStatus::Failed
        } else {
            ExecutionStatus::InvalidConfig
        }
    }

    /// The integer under which this status is stored.
    pub fn code(self) -> (value: i64)
        ensures
            value == status_code(self),
    {
        match self {
            ExecutionStatus::Success => 0,
            ExecutionStatus::Failed => 1,
            ExecutionStatus::InvalidConfig => 2,
        }
    }
}

/// Storing a status and reading it back gives the same status, and reading
/// a stored code and storing the status again gives the same code: the code
/// of a status is one of the three stored codes, decoding it gives the status
/// back, distinct statuses have distinct codes, and each of the codes 0, 1
/// and 2 is the code of the status it decodes to.
pub proof fn lemma_status_code_round_trip(a: ExecutionStatus, b: ExecutionStatus, code: int)
    ensures
        0 <= status_code(a) <= 2,
        status_of_code(status_code(a)) == a,
        status_code(a) == status_code(b) ==> a == b,
        0 <= code <= 2 ==> status_code(status_of_code(code)) == code,
{
}

/// A daily schedule of a job.
#[derive(Debug, Clone, Copy, PartialEq, Eq, Structural)]
pub struct Schedule {
    /// Unique identifier for the schedule
    pub schedule_id: i64,
    /// Job the schedule runs
    pub job_id: i64,
    /// Hour of day the job runs
    pub hour: u8,
    /// Minute of day the job runs
    pub minute: u8,
}

/// Request to run a job every day at a given time.
#[derive(Debug, Clone, Copy, PartialEq, Eq, Structural)]
pub struct ScheduleRequest {
    /// Hour of day the job runs
    pub hour: u8,
    /// Minute of day the job runs
    pub minute: u8,
}

/// Answer to a query for the last execution of a job.
#[derive(Debug, Clone)]
pub struct LastExecutionResponse {
    /// If executed the last execution
    pub last: Option<LastExecution>,
}

/// The most recent execution of a job.
#[derive(Debug, Clone)]
pub struct LastExecution {
    /// Unique identifier for the execution
    pub id: i64,
    /// Start time of the execution
    pub start_time: String,
    /// Status of the execution
    pub status: Option<ExecutionStatus>,
}

/// A job together with its most recent execution.
#[derive(Debug, Clone)]
pub struct JobOverview {
    pub id: i64,
    pub name: String,
    pub last_execution: Option<LastExecution>,
}

} // verus!
