use osprei::execution::EngineAction;
use osprei::execution::Error;
use osprei::execution::Execution;
use osprei::runner::result_file_contents;
use osprei::runner::ExecutionResult;
use osprei::runner::Job;
use osprei::runner::Model;
use osprei::runner::SourceCommand;
use osprei::server::execute::ProcessOutput;
use osprei::server::job::JobRunner;
use osprei::server::job::StageProgress;
use osprei::model::StageExecutionSummary;
use osprei::model::WrittenResult;
use osprei::storage::checkout_definition;
use osprei::storage::job_status_message;
use osprei::storage::template_definition;
use osprei::storage::ExecutionStatus;

fn output(code: Option<i32>, stdout: &str, stderr: &str) -> ProcessOutput {
    ProcessOutput {
        code,
        stdout: stdout.as_bytes().to_vec(),
        stderr: stderr.as_bytes().to_vec(),
    }
}

fn job() -> Job {
    Job {
        name: "demo".to_string(),
        source: "https://example.com/demo.git".to_string(),
        command: "cargo".to_string(),
        args: vec!["test".to_string()],
    }
}

#[test]
fn runner_result_file_layout() {
    let failure = ExecutionResult::SourceFailure { output: output(Some(128), "o", "e") };
    assert_eq!(
        result_file_contents(&failure),
        b"Source checkout failed\ngit stdout:\nogit stderr:\ne".to_vec()
    );
    let done = ExecutionResult::Execution {
        clone_output: output(Some(0), "c", "C"),
        command_output: output(Some(1), "j", "J"),
    };
    assert_eq!(
        result_file_contents(&done),
        b"git stdout:\ncgit stderr:\nCjob stdout:\njjob stderr:\nJ".to_vec()
    );
}

#[test]
fn runner_source_decisions() {
    assert_eq!(Job::source_command(true), SourceCommand::Pull);
    assert_eq!(Job::source_command(false), SourceCommand::Clone);
    assert!(Job::source_outcome(output(Some(0), "", "")).is_ok());
    assert!(Job::source_outcome(output(Some(1), "", "")).is_err());
    assert!(Job::source_outcome(output(None, "", "")).is_err());
    assert_eq!(job().repo_dir("/tmp/base"), "/tmp/base/demo");
    assert_eq!(job().result_dir("/tmp/base", 1234), "/tmp/base/results/demo/1234");
    assert_eq!(job().result_file("/tmp/base", 1234), "/tmp/base/results/demo/1234/output.txt");
    let model = Model::new("jobs".to_string(), "data".to_string());
    assert_eq!(model.job_dir, "jobs");
    assert_eq!(model.data_dir, "data");
}

fn summary(status: i32) -> StageExecutionSummary {
    StageExecutionSummary {
        status,
        logs: WrittenResult { stdout_path: String::new(), stderr_path: String::new() },
    }
}

#[test]
fn stage_progress_stops_after_failure() {
    let mut progress = StageProgress::new(3);
    assert!(progress.has_next());
    assert_eq!(progress.next_index(), 0);
    assert!(progress.record(summary(0)));
    assert!(!progress.record(summary(2)));
    assert!(!progress.has_next());
    let summaries = progress.into_summaries();
    assert_eq!(summaries.len(), 2);
    assert_eq!(summaries[0].status, 0);
    assert_eq!(summaries[1].status, 2);
    let mut progress = StageProgress::new(1);
    assert!(!progress.record(summary(0)));
    assert_eq!(progress.into_summaries().len(), 1);
}

#[test]
fn job_runner_paths_and_arguments() {
    let runner = JobRunner::new("/src".to_string(), "/results/7".to_string());
    assert_eq!(runner.source_dir(), "/src");
    assert_eq!(runner.stdout_path(), "/results/7/stdout.txt");
    assert_eq!(runner.stderr_path(), "/results/7/stderr.txt");
    assert_eq!(runner.checkout_arguments("https://x/y.git"), vec!["clone", "https://x/y.git", "/src"]);
}

#[test]
fn storage_statuses_and_stages() {
    assert_eq!(ExecutionStatus::from(None), ExecutionStatus::Running);
    assert_eq!(ExecutionStatus::from(Some(0)), ExecutionStatus::Success);
    assert_eq!(ExecutionStatus::from(Some(1)), ExecutionStatus::Failure);
    assert_eq!(ExecutionStatus::from(Some(5)), ExecutionStatus::Unknown);
    assert_eq!(job_status_message(None), "Not executed");
    assert_eq!(job_status_message(Some(ExecutionStatus::Failure)), "Failure");
    let checkout = checkout_definition("https://x/y.git".to_string());
    assert_eq!(checkout.name, "checkout");
    assert_eq!(checkout.image, "ghcr.io/musergi/osprei-git:latest");
    assert_eq!(checkout.environment[0].name, "SOURCE");
    assert_eq!(checkout.environment[0].value, "https://x/y.git");
    assert_eq!(checkout.working_dir, "/workspace");
    let sqlx = template_definition("db".to_string(), "sqlx").unwrap();
    assert_eq!(sqlx.image, "ghcr.io/musergi/sqlx:latest");
    assert_eq!(sqlx.working_dir, "/workspace/code");
    assert!(template_definition("db".to_string(), "other").is_none());
}

fn finished(action: EngineAction) -> Result<(), Error> {
    match action {
        EngineAction::Finish(result) => result,
        other => panic!("expected the end, got {:?}", other),
    }
}

#[test]
fn engine_runs_checkout_then_tests_then_cleans_up() {
    let (mut execution, first) = Execution::start("https://x/y.git".to_string());
    assert!(matches!(first, EngineAction::CreateVolume));
    match execution.on_volume_created(Ok("vol".to_string())) {
        EngineAction::RunContainer(run) => {
            assert_eq!(run.command, vec!["git", "clone", "https://x/y.git", "code"]);
            assert_eq!(run.working_dir, "/workspaces");
            assert_eq!(run.volume, "vol:/workspaces");
        }
        other => panic!("unexpected {:?}", other),
    }
    assert_eq!(execution.volume(), "vol");
    match execution.on_container_finished(Ok(true)) {
        EngineAction::RunContainer(run) => {
            assert_eq!(run.command, vec!["cargo", "test"]);
            assert_eq!(run.working_dir, "/workspaces/code");
        }
        other => panic!("unexpected {:?}", other),
    }
    assert!(matches!(execution.on_container_finished(Ok(false)), EngineAction::DeleteVolume));
    assert_eq!(finished(execution.on_volume_deleted(Ok(()))), Err(Error::Execution));
}

#[test]
fn engine_failed_checkout_still_deletes_volume() {
    let (mut execution, _) = Execution::start("s".to_string());
    execution.on_volume_created(Ok("v".to_string()));
    assert!(matches!(execution.on_container_finished(Ok(false)), EngineAction::DeleteVolume));
    assert_eq!(finished(execution.on_volume_deleted(Ok(()))), Err(Error::Checkout));
}

#[test]
fn engine_errors_are_reported() {
    let (mut execution, _) = Execution::start("s".to_string());
    assert_eq!(
        finished(execution.on_volume_created(Err("no docker".to_string()))),
        Err(Error::Docker("no docker".to_string()))
    );
    let (mut execution, _) = Execution::start("s".to_string());
    execution.on_volume_created(Ok("v".to_string()));
    execution.on_container_finished(Ok(true));
    execution.on_container_finished(Ok(true));
    assert_eq!(
        finished(execution.on_volume_deleted(Err("busy".to_string()))),
        Err(Error::Docker("busy".to_string()))
    );
    let (mut execution, _) = Execution::start("s".to_string());
    execution.on_volume_created(Ok("v".to_string()));
    execution.on_container_finished(Ok(true));
    execution.on_container_finished(Ok(true));
    assert_eq!(finished(execution.on_volume_deleted(Ok(()))), Ok(()));
}
