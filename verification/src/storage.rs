//! Rules of the job storage used by the web interface: the status of an
//! execution as stored, the checkout stage every job starts with, and the
//! stage templates.
use vstd::prelude::*;
use crate::data::{EnvironmentVariable, StageDefinition};
use crate::text::same_text;

verus! {

/// Directory the stages work in.
pub const WORKSPACE_DIR: &'static str = "/workspace";

/// Directory the sources are checked out into.
pub const CHECKOUT_DIR: &'static str = "/workspace/code";

/// Image of the checkout stage.
pub const GIT_IMAGE: &'static str = "ghcr.io/musergi/osprei-git:latest";

/// Image of the stage that sets a database up.
pub const SQLX_IMAGE: &'static str = "ghcr.io/musergi/sqlx:latest";

/// State of an execution, from its stored status code.
#[derive(Debug, Clone, Copy, PartialEq, Eq, Structural)]
pub enum ExecutionStatus {
    Running,
    Success,
    Failure,
    Unknown,
}

impl ExecutionStatus {
    /// No code yet means running; 0 is a success, 1 a failure, any other
    /// code is unknown.
    pub fn from(value: Option<i64>) -> (status: ExecutionStatus)
        ensures
            status == match value {
                None => ExecutionStatus::Running,
                Some(0) => ExecutionStatus::Success,
                Some(1) => ExecutionStatus::Failure,
                Some(_) => ExecutionStatus::Unknown,
            },
    {
        match value {
            None => ExecutionStatus::Running,
            Some(0) => ExecutionStatus::Success,
            Some(1) => ExecutionStatus::Failure,
            _ => ExecutionStatus::Unknown,
        }
    }
}

/// How the state of an execution is shown.
pub open spec fn execution_status_text(status: ExecutionStatus) -> Seq<char> {
    match status {
        ExecutionStatus::Running => "Running"@,
        ExecutionStatus::Success => "Success"@,
        ExecutionStatus::Failure => "Failure"@,
        ExecutionStatus::Unknown => "Unknown"@,
    }
}

/// How the state of an execution is shown.
pub fn execution_status_message(status: ExecutionStatus) -> (message: String)
    ensures
        message@ == execution_status_text(status),
{
    match status {
        ExecutionStatus::Running => "Running".to_owned(),
        ExecutionStatus::Success => "Success".to_owned(),
        ExecutionStatus::Failure => "Failure".to_owned(),
        ExecutionStatus::Unknown => "Unknown".to_owned(),
    }
}

/// How the state of a job is shown, from the state of its last execution.
pub fn job_status_message(status: Option<ExecutionStatus>) -> (message: String)
    ensures
        message@ == match status {
            None => "Not executed"@,
            Some(s) => execution_status_text(s),
        },
{
    match status {
        None => "Not executed".to_owned(),
        Some(s) => execution_status_message(s),
    }
}

/// The stage that checks a job's source out: the git image, with the source
/// in the variable `SOURCE`, working in the workspace.
pub fn checkout_definition(source: String) -> (definition: StageDefinition)
    ensures
        definition.name@ == "checkout"@,
        definition.image@ == GIT_IMAGE@,
        definition.environment@.len() == 1,
        definition.environment@[0].name@ == "SOURCE"@,
        definition.environment@[0].value@ == source@,
        definition.working_dir@ == WORKSPACE_DIR@,
{
    let mut environment: Vec<EnvironmentVariable> = Vec::new();
    environment.push(EnvironmentVariable { name: "SOURCE".to_owned(), value: source });
    StageDefinition {
        name: "checkout".to_owned(),
        image: GIT_IMAGE.to_owned(),
        environment,
        working_dir: WORKSPACE_DIR.to_owned(),
    }
}

/// The stage a template makes, named `name`; only the `sqlx` template is
/// known: it sets a SQLite database up in the checkout.
pub fn template_definition(name: String, template: &str) -> (definition: Option<StageDefinition>)
    ensures
        template@ != "sqlx"@ ==> definition is None,
        template@ == "sqlx"@ ==> (definition matches Some(d) && d.name@ == name@ && d.image@
            == SQLX_IMAGE@ && d.environment@.len() == 1 && d.environment@[0].name@
            == "DATABASE_URL"@ && d.environment@[0].value@ == "sqlite:testing.db"@
            && d.working_dir@ == CHECKOUT_DIR@),
{
    if same_text(template, "sqlx") {
        let mut environment: Vec<EnvironmentVariable> = Vec::new();
        environment.push(
            EnvironmentVariable {
                name: "DATABASE_URL".to_owned(),
                value: "sqlite:testing.db".to_owned(),
            },
        );
        Some(
            StageDefinition {
                name,
                image: SQLX_IMAGE.to_owned(),
                environment,
                working_dir: CHECKOUT_DIR.to_owned(),
            },
        )
    } else {
        None
    }
}

} // verus!
