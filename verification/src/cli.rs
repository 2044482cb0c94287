//! What the command line client shows of the jobs on a server.
use vstd::prelude::*;
use crate::model::{ExecutionStatus, JobOverview, LastExecution};
use crate::text::{decimal, decimal_text, push_char};

verus! {

/// One line of the job listing.
pub struct JobLine {
    pub id: i64,
    pub name: String,
    pub status: String,
}

/// How the state of a job is shown, from its last execution.
pub open spec fn status_label_text(last: Option<LastExecution>) -> Seq<char> {
    match last {
        Some(execution) => match execution.status {
            Some(ExecutionStatus::Success) => "Success"@,
            Some(ExecutionStatus::Failed) => "Failed"@,
            Some(ExecutionStatus::InvalidConfig) => "Invalid config"@,
            None => "Running"@,
        },
        None => "Not executed"@,
    }
}

/// How the state of a job is shown, from its last execution.
pub fn status_label(last: &Option<LastExecution>) -> (label: String)
    ensures
        label@ == status_label_text(*last),
{
    match last {
        Some(execution) => match execution.status {
            Some(ExecutionStatus::Success) => "Success".to_owned(),
            Some(ExecutionStatus::Failed) => "Failed".to_owned(),
            Some(ExecutionStatus::InvalidConfig) => "Invalid config".to_owned(),
            None => "Running".to_owned(),
        },
        None => "Not executed".to_owned(),
    }
}

/// The lines listing some jobs, in the same order.
pub fn job_lines(overviews: Vec<JobOverview>) -> (lines: Vec<JobLine>)
    ensures
        lines@.len() == overviews@.len(),
        forall|i: int|
            0 <= i < lines@.len() ==> {
                &&& (#[trigger] lines@[i]).id == overviews@[i].id
                &&& lines@[i].name@ == overviews@[i].name@
                &&& lines@[i].status@ == status_label_text(overviews@[i].last_execution)
            },
{
    let mut lines: Vec<JobLine> = Vec::new();
    let mut i: usize = 0;
    while i < overviews.len()
        invariant
            i <= overviews@.len(),
            lines@.len() == i,
            forall|k: int|
                0 <= k < i ==> {
                    &&& (#[trigger] lines@[k]).id == overviews@[k].id
                    &&& lines@[k].name@ == overviews@[k].name@
                    &&& lines@[k].status@ == status_label_text(overviews@[k].last_execution)
                },
        decreases overviews@.len() - i,
    {
        let overview = &overviews[i];
        let status = status_label(&overview.last_execution);
        lines.push(JobLine { id: overview.id, name: overview.name.clone(), status });
        i = i + 1;
    }
    lines
}

/// How one job is listed: its identifier, name and status, one per line.
pub open spec fn job_entry_text(line: JobLine) -> Seq<char> {
    "- id: "@ + decimal_text(line.id as int) + seq!['\n'] + "  name: "@ + line.name@ + seq!['\n']
        + "  status: "@ + line.status@ + seq!['\n']
}

/// The entries of some jobs, one after the other.
pub open spec fn entries_text(lines: Seq<JobLine>) -> Seq<char>
    decreases lines.len(),
{
    if lines.len() == 0 {
        Seq::empty()
    } else {
        entries_text(lines.drop_last()) + job_entry_text(lines.last())
    }
}

/// The listing of some jobs, or a hint when there is none.
pub open spec fn listing_text(lines: Seq<JobLine>) -> Seq<char> {
    if lines.len() == 0 {
        "No jobs yet, try adding a job."@ + seq!['\n']
    } else {
        entries_text(lines)
    }
}

/// The text the client prints to list jobs.
pub fn listing(lines: &Vec<JobLine>) -> (text: String)
    ensures
        text@ == listing_text(lines@),
{
    let mut text = String::new();
    if lines.len() == 0 {
        text.append("No jobs yet, try adding a job.");
        push_char(&mut text, '\n');
        return text;
    }
    let mut i: usize = 0;
    while i < lines.len()
        invariant
            i <= lines@.len(),
            text@ == entries_text(lines@.take(i as int)),
        decreases lines@.len() - i,
    {
        let line = &lines[i];
        text.append("- id: ");
        text.append(decimal(line.id).as_str());
        push_char(&mut text, '\n');
        text.append("  name: ");
        text.append(line.name.as_str());
        push_char(&mut text, '\n');
        text.append("  status: ");
        text.append(line.status.as_str());
        push_char(&mut text, '\n');
        proof {
            assert(lines@.take(i + 1).drop_last() =~= lines@.take(i as int));
            assert(lines@.take(i + 1).last() == *line);
        }
        i = i + 1;
        assert(text@ =~= entries_text(lines@.take(i as int)));
    }
    assert(lines@.take(lines@.len() as int) =~= lines@);
    text
}

} // verus!
