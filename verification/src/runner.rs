//! The standalone runner: it checks a job's repository out (cloning it the
//! first time, pulling it afterwards), runs the job's command in it, and
//! writes what both printed to a result file.
use vstd::prelude::*;
use vstd::string::StringSliceAdditionalSpecFns;
use crate::server::execute::ProcessOutput;
use crate::text::{append_bytes, decimal_unsigned, digits_of, joined, joined_path};

verus! {

/// Where the runner finds job definitions and keeps its data.
pub struct Model {
    pub job_dir: String,
    pub data_dir: String,
}

impl Model {
    pub fn new(job_dir: String, data_dir: String) -> (model: Model)
        ensures
            model.job_dir == job_dir,
            model.data_dir == data_dir,
    {
        Model { job_dir, data_dir }
    }
}

/// A job of the runner: a repository and the command to run in it.
#[derive(Debug)]
pub struct Job {
    pub name: String,
    pub source: String,
    pub command: String,
    pub args: Vec<String>,
}

/// How the sources of a job are brought up to date.
#[derive(Debug, Clone, Copy, PartialEq, Eq, Structural)]
pub enum SourceCommand {
    /// `git pull` in the existing checkout.
    Pull,
    /// `git clone` of the repository into the checkout directory.
    Clone,
}

/// What running a job gave.
#[derive(Debug)]
pub enum ExecutionResult {
    /// The checkout failed; its output.
    SourceFailure { output: ProcessOutput },
    /// The checkout succeeded and the command ran; both outputs.
    Execution { clone_output: ProcessOutput, command_output: ProcessOutput },
}

/// Whether a process succeeded: it exited with code 0.
pub open spec fn succeeded(output: ProcessOutput) -> bool {
    output.code == Some(0i32)
}

impl Job {
    /// The checkout directory of the job under `base_path`.
    pub fn repo_dir(&self, base_path: &str) -> (dir: String)
        ensures
            dir@ == joined_path(base_path@, self.name@),
    {
        joined(base_path, self.name.as_str())
    }

    /// A checkout that exists is pulled; otherwise the repository is cloned.
    pub fn source_command(repo_exists: bool) -> (command: SourceCommand)
        ensures
            command == if repo_exists {
                SourceCommand::Pull
            } else {
                SourceCommand::Clone
            },
    {
        if repo_exists {
            SourceCommand::Pull
        } else {
            SourceCommand::Clone
        }
    }

    /// The outcome of a checkout command: its output, as a success when it
    /// exited with code 0 and as a failure otherwise.
    pub fn source_outcome(output: ProcessOutput) -> (outcome: Result<ProcessOutput, ProcessOutput>)
        ensures
            succeeded(output) ==> outcome == Ok::<ProcessOutput, ProcessOutput>(output),
            !succeeded(output) ==> outcome == Err::<ProcessOutput, ProcessOutput>(output),
    {
        match output.code {
            Some(0) => Ok(output),
            _ => Err(output),
        }
    }

    /// The directory the result of a run started `nanos` nanoseconds after
    /// the epoch goes to: `results/<job>/<nanos>` under `base_path`.
    pub fn result_dir(&self, base_path: &str, nanos: u128) -> (dir: String)
        ensures
            dir@ == joined_path(
                joined_path(joined_path(base_path@, "results"@), self.name@),
                digits_of(nanos as nat),
            ),
    {
        let results = joined(base_path, "results");
        let job = joined(results.as_str(), self.name.as_str());
        let stamp = decimal_unsigned(nanos);
        joined(job.as_str(), stamp.as_str())
    }

    /// The result file of a run started `nanos` nanoseconds after the epoch:
    /// `output.txt` in its result directory.
    pub fn result_file(&self, base_path: &str, nanos: u128) -> (file: String)
        ensures
            file@ == joined_path(
                joined_path(
                    joined_path(joined_path(base_path@, "results"@), self.name@),
                    digits_of(nanos as nat),
                ),
                "output.txt"@,
            ),
    {
        let dir = self.result_dir(base_path, nanos);
        joined(dir.as_str(), "output.txt")
    }
}

/// The contents of the result file of a run.
pub open spec fn result_file_text(result: ExecutionResult) -> Seq<u8> {
    match result {
        ExecutionResult::SourceFailure { output } => "Source checkout failed\n".spec_bytes()
            + "git stdout:\n".spec_bytes() + output.stdout@ + "git stderr:\n".spec_bytes()
            + output.stderr@,
        ExecutionResult::Execution { clone_output, command_output } => "git stdout:\n".spec_bytes()
            + clone_output.stdout@ + "git stderr:\n".spec_bytes() + clone_output.stderr@
            + "job stdout:\n".spec_bytes() + command_output.stdout@ + "job stderr:\n".spec_bytes()
            + command_output.stderr@,
    }
}

/// The contents of the result file of a run: the outputs of the checkout
/// and of the command, each under a header.
pub fn result_file_contents(result: &ExecutionResult) -> (contents: Vec<u8>)
    ensures
        contents@ == result_file_text(*result),
        match *result {
            ExecutionResult::SourceFailure { output } => contents@ == "Source checkout failed\n".spec_bytes()
                + "git stdout:\n".spec_bytes() + output.stdout@ + "git stderr:\n".spec_bytes()
                + output.stderr@,
            ExecutionResult::Execution { clone_output, command_output } => contents@
                == "git stdout:\n".spec_bytes() + clone_output.stdout@ + "git stderr:\n".spec_bytes()
                + clone_output.stderr@ + "job stdout:\n".spec_bytes() + command_output.stdout@
                + "job stderr:\n".spec_bytes() + command_output.stderr@,
        },
{
    let mut contents: Vec<u8> = Vec::new();
    match result {
        ExecutionResult::SourceFailure { output } => {
            append_bytes(&mut contents, "Source checkout failed\n".as_bytes());
            append_bytes(&mut contents, "git stdout:\n".as_bytes());
            append_bytes(&mut contents, output.stdout.as_slice());
            append_bytes(&mut contents, "git stderr:\n".as_bytes());
            append_bytes(&mut contents, output.stderr.as_slice());
        },
        ExecutionResult::Execution { clone_output, command_output } => {
            append_bytes(&mut contents, "git stdout:\n".as_bytes());
            append_bytes(&mut contents, clone_output.stdout.as_slice());
            append_bytes(&mut contents, "git stderr:\n".as_bytes());
            append_bytes(&mut contents, clone_output.stderr.as_slice());
            append_bytes(&mut contents, "job stdout:\n".as_bytes());
            append_bytes(&mut contents, command_output.stdout.as_slice());
            append_bytes(&mut contents, "job stderr:\n".as_bytes());
            append_bytes(&mut contents, command_output.stderr.as_slice());
        },
    }
    assert(contents@ =~= result_file_text(*result));
    contents
}

/// The result file of a run holds every header, whatever the outputs, empty
/// ones included: after a failed checkout, the failure line, then the git
/// output and error output each under its header; after a run, the git output
/// and error output and the job's output and error output, each under its
/// header, in that order. Each part is found at the place its predecessors'
/// lengths give.
pub proof fn law_result_file_has_every_header(result: ExecutionResult)
    ensures
        match result {
            ExecutionResult::SourceFailure { output } => {
                let failed = "Source checkout failed\n".spec_bytes();
                let out = "git stdout:\n".spec_bytes();
                let err = "git stderr:\n".spec_bytes();
                let text = result_file_text(result);
                &&& text.len() == failed.len() + out.len() + output.stdout@.len() + err.len()
                    + output.stderr@.len()
                &&& text.subrange(0, failed.len() as int) == failed
                &&& text.subrange(failed.len() as int, (failed.len() + out.len()) as int) == out
                &&& text.subrange(
                    (failed.len() + out.len() + output.stdout@.len()) as int,
                    (failed.len() + out.len() + output.stdout@.len() + err.len()) as int,
                ) == err
            },
            ExecutionResult::Execution { clone_output, command_output } => {
                let git_out = "git stdout:\n".spec_bytes();
                let git_err = "git stderr:\n".spec_bytes();
                let job_out = "job stdout:\n".spec_bytes();
                let job_err = "job stderr:\n".spec_bytes();
                let text = result_file_text(result);
                let a = git_out.len() + clone_output.stdout@.len();
                let b = a + git_err.len() + clone_output.stderr@.len();
                let c = b + job_out.len() + command_output.stdout@.len();
                &&& text.len() == c + job_err.len() + command_output.stderr@.len()
                &&& text.subrange(0, git_out.len() as int) == git_out
                &&& text.subrange(git_out.len() as int, a as int) == clone_output.stdout@
                &&& text.subrange(a as int, (a + git_err.len()) as int) == git_err
                &&& text.subrange((a + git_err.len()) as int, b as int) == clone_output.stderr@
                &&& text.subrange(b as int, (b + job_out.len()) as int) == job_out
                &&& text.subrange((b + job_out.len()) as int, c as int) == command_output.stdout@
                &&& text.subrange(c as int, (c + job_err.len()) as int) == job_err
                &&& text.subrange((c + job_err.len()) as int, text.len() as int)
                    == command_output.stderr@
            },
        },
{
    match result {
        ExecutionResult::SourceFailure { output } => {
            let failed = "Source checkout failed\n".spec_bytes();
            let out = "git stdout:\n".spec_bytes();
            let err = "git stderr:\n".spec_bytes();
            let text = result_file_text(result);
            assert(text.subrange(0, failed.len() as int) =~= failed);
            assert(text.subrange(failed.len() as int, (failed.len() + out.len()) as int) =~= out);
            assert(text.subrange(
                (failed.len() + out.len() + output.stdout@.len()) as int,
                (failed.len() + out.len() + output.stdout@.len() + err.len()) as int,
            ) =~= err);
        },
        ExecutionResult::Execution { clone_output, command_output } => {
            let git_out = "git stdout:\n".spec_bytes();
            let git_err = "git stderr:\n".spec_bytes();
            let job_out = "job stdout:\n".spec_bytes();
            let job_err = "job stderr:\n".spec_bytes();
            let text = result_file_text(result);
            let a = git_out.len() + clone_output.stdout@.len();
            let b = a + git_err.len() + clone_output.stderr@.len();
            let c = b + job_out.len() + command_output.stdout@.len();
            assert(text.subrange(0, git_out.len() as int) =~= git_out);
            assert(text.subrange(git_out.len() as int, a as int) =~= clone_output.stdout@);
            assert(text.subrange(a as int, (a + git_err.len()) as int) =~= git_err);
            assert(text.subrange((a + git_err.len()) as int, b as int) =~= clone_output.stderr@);
            assert(text.subrange(b as int, (b + job_out.len()) as int) =~= job_out);
            assert(text.subrange((b + job_out.len()) as int, c as int) =~= command_output.stdout@);
            assert(text.subrange(c as int, (c + job_err.len()) as int) =~= job_err);
            assert(text.subrange((c + job_err.len()) as int, text.len() as int)
                =~= command_output.stderr@);
        },
    }
}

} // verus!
