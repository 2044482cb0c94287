//! Storage of jobs, executions and schedules: errors, configuration and the
//! requests the server makes.
use vstd::prelude::*;
use crate::model::ExecutionStatus;

verus! {

/// Why a storage operation failed.
#[derive(Debug)]
pub enum StorageError {
    /// The request was wrong, such as an unknown identifier.
    UserError(String),
    /// The storage itself failed.
    InternalError(String),
}

impl StorageError {
    /// The message shown for this error; internal details stay hidden.
    pub fn to_message(&self) -> (message: String)
        ensures
            self matches StorageError::UserError(m) ==> message@ == "user error: "@ + m@,
            self is InternalError ==> message@ == "internal error"@,
    {
        match self {
            StorageError::UserError(err) => {
                let mut message = "user error: ".to_owned();
                message.append(err.as_str());
                message
            },
            StorageError::InternalError(_) => "internal error".to_owned(),
        }
    }
}

/// Which storage the server uses.
#[derive(Debug)]
pub enum PersistanceConfig {
    Memory,
    Sqlite { path: String },
}

/// Request to store a job.
#[derive(Debug)]
pub struct Job {
    pub name: String,
    pub source: String,
    pub path: String,
}

/// Request to store the outcome of an execution.
#[derive(Debug)]
pub struct Execution {
    pub id: i64,
    pub status: ExecutionStatus,
    pub stdout: String,
    pub stderr: String,
}

/// Request to store a daily schedule.
#[derive(Debug, Clone, Copy, PartialEq, Eq, Structural)]
pub struct Schedule {
    pub job_id: i64,
    pub hour: u8,
    pub minute: u8,
}

} // verus!
