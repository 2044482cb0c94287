//! What the web API makes of stored rows and errors, and how it runs a job in
//! a container.
use vstd::prelude::*;
use crate::model::{ExecutionStatus, Job, LastExecution, status_code};

verus! {

/// Why a request to the storage failed.
#[derive(Debug)]
pub enum Error {
    /// The database failed, with its message.
    DatabaseError(String),
    /// Nothing matched the request.
    NotFound,
}

/// The status code and message an API error is answered with.
#[derive(Debug)]
pub struct ErrorReply {
    pub status: u16,
    pub message: String,
}

impl Error {
    /// A database error is answered as an internal server error (500), a
    /// missing item as not found (404); neither shows the details.
    pub fn to_reply(self) -> (reply: ErrorReply)
        ensures
            self is DatabaseError ==> reply.status == 500 && reply.message@
                == "Internal server error"@,
            self is NotFound ==> reply.status == 404 && reply.message@ == "Not found"@,
    {
        match self {
            Error::DatabaseError(_) => ErrorReply {
                status: 500,
                message: "Internal server error".to_owned(),
            },
            Error::NotFound => ErrorReply { status: 404, message: "Not found".to_owned() },
        }
    }
}

/// The last execution of a job from the columns of a row: present when the
/// row has both an execution and a start time.
pub fn last_execution(execution_id: Option<i64>, start_time: Option<String>, status: Option<i64>) -> (last:
    Option<LastExecution>)
    requires
        status matches Some(code) ==> 0 <= code <= 2,
    ensures
        (execution_id is Some && start_time is Some) ==> (last matches Some(l) && l.id
            == execution_id->Some_0 && l.start_time@ == start_time->Some_0@ && match status {
            None => l.status is None,
            Some(code) => l.status matches Some(s) && status_code(s) == code,
        }),
        !(execution_id is Some && start_time is Some) ==> last is None,
{
    let status = match status {
        Some(code) => Some(ExecutionStatus::from(code)),
        None => None,
    };
    match (execution_id, start_time) {
        (Some(id), Some(start_time)) => Some(LastExecution { id, start_time, status }),
        _ => None,
    }
}

/// How a job runs in a container: its sources are checked out under
/// `/opt/osprei/var/workspace/<name>`, that directory is mounted at the same
/// place, and the job's command runs there with its arguments.
#[derive(Debug)]
pub struct ContainerPlan {
    pub checkout_path: String,
    pub volume: String,
    pub image: String,
    pub command: Vec<String>,
}

/// The container that runs a job.
pub fn container_plan(name: &str, job: &Job) -> (plan: ContainerPlan)
    ensures
        plan.checkout_path@ == "/opt/osprei/var/workspace/"@ + name@,
        plan.volume@ == plan.checkout_path@ + ":"@ + plan.checkout_path@,
        plan.image@ == job.image@,
        plan.command@.len() == job.arguments@.len() + 1,
        plan.command@[0]@ == job.command@,
        forall|i: int|
            0 <= i < job.arguments@.len() ==> #[trigger] plan.command@[i + 1]@
                == job.arguments@[i]@,
{
    let mut checkout_path = "/opt/osprei/var/workspace/".to_owned();
    checkout_path.append(name);
    let mut volume = checkout_path.clone();
    volume.append(":");
    volume.append(checkout_path.as_str());
    let mut command: Vec<String> = Vec::new();
    command.push(job.command.clone());
    let mut i: usize = 0;
    while i < job.arguments.len()
        invariant
            i <= job.arguments@.len(),
            command@.len() == i + 1,
            command@[0]@ == job.command@,
            forall|k: int| 0 <= k < i ==> #[trigger] command@[k + 1]@ == job.arguments@[k]@,
        decreases job.arguments@.len() - i,
    {
        command.push(job.arguments[i].clone());
        i = i + 1;
    }
    ContainerPlan { checkout_path, volume, image: job.image.clone(), command }
}

/// The status stored for a container that exited with `status_code`: 0 for
/// success, 1 for anything else.
pub fn stored_status(status_code: i64) -> (status: i64)
    ensures
        status == if status_code == 0 {
            0i64
        } else {
            1i64
        },
{
    if status_code == 0 {
        0
    } else {
        1
    }
}

} // verus!
