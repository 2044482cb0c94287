use osprei::model::ExecutionStatus;
use osprei::model::StageExecutionSummary;
use osprei::model::WrittenResult;
use osprei::model::JobPointer;
use osprei::server::execute::checkout_result;
use osprei::server::serve::ServeAction;
use osprei::server::serve::Server;
use osprei::server::execute::execute_decision;
use osprei::server::execute::summaries_status;
use osprei::server::execute::CheckoutResult;
use osprei::server::execute::JobAction;
use osprei::server::execute::JobDefinition;
use osprei::server::execute::JobDescriptor;
use osprei::server::execute::JobPhase;
use osprei::server::execute::ProcessOutput;
use osprei::server::execute::Report;
use osprei::server::execute::Stage;

fn report(status: ExecutionStatus, stdout: &str, stderr: &str) -> Report {
    Report {
        status,
        stdout: stdout.to_string(),
        stderr: stderr.to_string(),
    }
}

fn stage() -> Stage {
    Stage {
        cmd: String::default(),
        args: Vec::new(),
        env: Vec::new(),
        path: String::default(),
    }
}

fn descriptor() -> JobDescriptor {
    JobDescriptor {
        execution_dir: "/var/osprei/test".to_string(),
        source: "https://github.com/user/repo.git".to_string(),
        path: "ci/test.json".to_string(),
    }
}

/// A job system whose checkout gives `checkout` and whose every stage
/// reports `stage`.
struct System {
    checkout: CheckoutResult,
    stage: Report,
    stages: usize,
}

fn setup() -> (JobDescriptor, System) {
    let checkout = Ok((
        report(ExecutionStatus::Success, "", ""),
        JobDefinition { stages: vec![stage()] },
    ));
    let system = System {
        checkout,
        stage: report(ExecutionStatus::Success, "", ""),
        stages: 1,
    };
    (descriptor(), system)
}

fn add_stage(system: &mut System) {
    if let Ok((_, job)) = system.checkout.as_mut() {
        job.stages.push(stage());
    }
    system.stages += 1;
}

fn run(job: JobDescriptor, system: System) -> (Vec<JobAction>, Report) {
    let reports: Vec<Report> = (0..system.stages).map(|_| system.stage.duplicate()).collect();
    job.execute_job_inner(system.checkout, &reports)
}

#[test]
fn when_checkout_fails_then_failure_is_returned() {
    let (job_ptr, mut system) = setup();
    system.checkout = Err(report(ExecutionStatus::Failed, "", ""));
    let (_, report) = run(job_ptr, system);
    assert_eq!(report.status, ExecutionStatus::Failed);
}

#[test]
fn when_checkout_fails_then_cleanup_is_called() {
    let (job_ptr, mut system) = setup();
    system.checkout = Err(report(ExecutionStatus::Failed, "", ""));
    let (seq, _) = run(job_ptr, system);
    assert_eq!(seq, vec![JobAction::Cleanup, JobAction::Checkout, JobAction::Cleanup]);
}

#[test]
fn when_checkout_succeeds_then_stage_is_executed() {
    let (job_ptr, system) = setup();
    let (seq, _) = run(job_ptr, system);
    assert_eq!(
        seq,
        vec![
            JobAction::Cleanup,
            JobAction::Checkout,
            JobAction::ExecuteStage(0),
            JobAction::Cleanup
        ]
    );
}

#[test]
fn when_checkout_and_stage_succeed_then_success_is_returned() {
    let (job_ptr, system) = setup();
    let (_, report) = run(job_ptr, system);
    assert_eq!(report.status, ExecutionStatus::Success);
}

#[test]
fn when_multiple_stage_then_all_are_executed() {
    let (job_ptr, mut system) = setup();
    add_stage(&mut system);
    let (seq, _) = run(job_ptr, system);
    assert_eq!(
        seq,
        vec![
            JobAction::Cleanup,
            JobAction::Checkout,
            JobAction::ExecuteStage(0),
            JobAction::ExecuteStage(1),
            JobAction::Cleanup
        ]
    );
}

#[test]
fn when_multiple_stages_and_first_fails_short_circuit() {
    let (job_ptr, mut system) = setup();
    add_stage(&mut system);
    system.stage.status = ExecutionStatus::Failed;
    let (seq, _) = run(job_ptr, system);
    assert_eq!(
        seq,
        vec![
            JobAction::Cleanup,
            JobAction::Checkout,
            JobAction::ExecuteStage(0),
            JobAction::Cleanup
        ]
    );
}

#[test]
fn when_multiple_stages_and_first_fails_then_failure_ir_returned() {
    let (job_ptr, mut system) = setup();
    add_stage(&mut system);
    system.stage.status = ExecutionStatus::Failed;
    let (_, report) = run(job_ptr, system);
    assert_eq!(report.status, ExecutionStatus::Failed);
}

#[test]
fn when_multiplt_stages_output_is_concatenation_of_outputs() {
    let (job_ptr, mut system) = setup();
    if let Ok((checkout, _)) = system.checkout.as_mut() {
        checkout.stdout = "a".to_string();
        checkout.stderr = "A".to_string();
    }
    system.stage.stdout = "b".to_string();
    system.stage.stderr = "B".to_string();
    let (_, report) = run(job_ptr, system);
    assert_eq!(report.stdout, "ab");
    assert_eq!(report.stderr, "AB");
}

#[test]
fn state_machine_driven_step_by_step() {
    let (mut execution, first) = descriptor().start();
    assert_eq!(first, JobAction::Cleanup);
    assert_eq!(execution.execution_dir(), "/var/osprei/test");
    assert_eq!(execution.source(), "https://github.com/user/repo.git");
    assert_eq!(execution.definition_path(), "ci/test.json");
    assert_eq!(execution.on_cleaned_up(), JobAction::Checkout);
    let job = JobDefinition { stages: vec![stage(), stage(), stage()] };
    let action = execution.on_checkout(Ok((report(ExecutionStatus::Failed, "clone ", ""), job)));
    assert_eq!(action, JobAction::ExecuteStage(0));
    let action = execution.on_stage_report(report(ExecutionStatus::Success, "one ", "x"));
    assert_eq!(action, JobAction::ExecuteStage(1));
    let action = execution.on_stage_report(report(ExecutionStatus::InvalidConfig, "two", "y"));
    assert_eq!(action, JobAction::Cleanup);
    assert_eq!(execution.on_cleaned_up(), JobAction::Finish);
    let report = execution.into_report();
    assert_eq!(report.status, ExecutionStatus::InvalidConfig);
    assert_eq!(report.stdout, "clone one two");
    assert_eq!(report.stderr, "xy");
}

#[test]
fn job_without_stages_keeps_checkout_report() {
    let job = JobDefinition { stages: Vec::new() };
    let checkout = Ok((report(ExecutionStatus::Failed, "out", "err"), job));
    let (seq, report) = descriptor().execute_job_inner(checkout, &Vec::new());
    assert_eq!(seq, vec![JobAction::Cleanup, JobAction::Checkout, JobAction::Cleanup]);
    assert_eq!(report.status, ExecutionStatus::Failed);
    assert_eq!(report.stdout, "out");
    assert_eq!(report.stderr, "err");
}

#[test]
fn later_stage_reports_follow_the_given_order() {
    let job = JobDefinition { stages: vec![stage(), stage(), stage()] };
    let checkout = Ok((report(ExecutionStatus::Success, "", ""), job));
    let reports = vec![
        report(ExecutionStatus::Success, "1", ""),
        report(ExecutionStatus::Success, "2", ""),
        report(ExecutionStatus::Failed, "3", "bad"),
    ];
    let (seq, report) = descriptor().execute_job_inner(checkout, &reports);
    assert_eq!(seq.len(), 6);
    assert_eq!(report.status, ExecutionStatus::Failed);
    assert_eq!(report.stdout, "123");
    assert_eq!(report.stderr, "bad");
}

#[test]
fn phases_are_distinct() {
    assert_ne!(JobPhase::AwaitCheckout, JobPhase::Done);
}

#[test]
fn report_from_output_success_and_failure() {
    let ok = Report::from(ProcessOutput {
        code: Some(0),
        stdout: b"hello".to_vec(),
        stderr: b"".to_vec(),
    });
    assert_eq!(ok.status, ExecutionStatus::Success);
    assert_eq!(ok.stdout, "hello");
    let failed = Report::from(ProcessOutput {
        code: Some(3),
        stdout: Vec::new(),
        stderr: vec![b'a', 0xff, b'b'],
    });
    assert_eq!(failed.status, ExecutionStatus::Failed);
    assert_eq!(failed.stderr, "a\u{FFFD}b");
    let killed = Report::from(ProcessOutput {
        code: None,
        stdout: Vec::new(),
        stderr: Vec::new(),
    });
    assert_eq!(killed.status, ExecutionStatus::Failed);
}

#[test]
fn spawn_failure_is_invalid_config() {
    let r = Report::spawn_failure("no such file".to_string());
    assert_eq!(r.status, ExecutionStatus::InvalidConfig);
    assert_eq!(r.stdout, "");
    assert_eq!(r.stderr, "no such file");
}

#[test]
fn unreadable_definition_fails_checkout() {
    let result = checkout_result(
        report(ExecutionStatus::Success, "cloned", "warn\n"),
        Err("missing file".to_string()),
    );
    match result {
        Err(r) => {
            assert_eq!(r.status, ExecutionStatus::InvalidConfig);
            assert_eq!(r.stdout, "cloned");
            assert_eq!(r.stderr, "warn\nmissing file\n");
        }
        Ok(_) => panic!("expected a failed checkout"),
    }
    let result = checkout_result(
        report(ExecutionStatus::Failed, "", ""),
        Ok(JobDefinition { stages: vec![stage()] }),
    );
    match result {
        Ok((r, job)) => {
            assert_eq!(r.status, ExecutionStatus::Failed);
            assert_eq!(job.stages.len(), 1);
        }
        Err(_) => panic!("expected a checkout"),
    }
}

fn summary(status: i32) -> StageExecutionSummary {
    StageExecutionSummary {
        status,
        logs: WrittenResult {
            stdout_path: String::new(),
            stderr_path: String::new(),
        },
    }
}

#[test]
fn summaries_status_fails_on_any_failure() {
    assert_eq!(summaries_status(&[]), ExecutionStatus::Success);
    assert_eq!(summaries_status(&[summary(0), summary(0)]), ExecutionStatus::Success);
    assert_eq!(summaries_status(&[summary(0), summary(2)]), ExecutionStatus::Failed);
}

#[test]
fn stages_are_handed_out_by_index() {
    let (mut execution, _) = descriptor().start();
    execution.on_cleaned_up();
    let named = |cmd: &str| Stage {
        cmd: cmd.to_string(),
        args: vec!["--all".to_string()],
        env: Vec::new(),
        path: "sub".to_string(),
    };
    let job = JobDefinition { stages: vec![named("build"), named("test")] };
    execution.on_checkout(Ok((report(ExecutionStatus::Success, "", ""), job)));
    assert_eq!(execution.stage(0).cmd, "build");
    assert_eq!(execution.stage(1).cmd, "test");
    assert_eq!(execution.stage(1).path, "sub");
}

fn pointer() -> JobPointer {
    JobPointer {
        id: 3,
        name: "osprei".to_string(),
        source: "https://github.com/musergi/osprei.git".to_string(),
        path: ".ci/test.json".to_string(),
    }
}

#[test]
fn runs_are_answered_with_their_execution() {
    let (reply, run) = execute_decision(Some(pointer()), Some(11), "/work".to_string());
    assert_eq!(reply, Some(11));
    let descriptor = run.unwrap();
    assert_eq!(descriptor.execution_dir, "/work");
    assert_eq!(descriptor.source, "https://github.com/musergi/osprei.git");
    assert_eq!(descriptor.path, ".ci/test.json");
    let (reply, run) = execute_decision(Some(pointer()), None, "/work".to_string());
    assert_eq!(reply, None);
    assert!(run.is_none());
    let (reply, run) = execute_decision(None, Some(11), "/work".to_string());
    assert_eq!(reply, None);
    assert!(run.is_none());
}

#[test]
fn server_runs_a_found_job_and_stores_under_the_answered_execution() {
    let mut server = Server::new("/work".to_string());
    assert!(matches!(server.on_request(3), ServeAction::FetchJob(3)));
    assert!(matches!(server.on_job(Some(pointer())), ServeAction::CreateExecution(3)));
    match server.on_execution(Some(12)) {
        ServeAction::ReplyAndRun(id, descriptor) => {
            assert_eq!(id, 12);
            assert_eq!(descriptor.execution_dir, "/work");
            assert_eq!(descriptor.source, "https://github.com/musergi/osprei.git");
            assert_eq!(descriptor.path, ".ci/test.json");
        }
        other => panic!("unexpected {:?}", other),
    }
    match server.on_report(report(ExecutionStatus::Failed, "out", "err")) {
        ServeAction::Store(id, stored) => {
            assert_eq!(id, 12);
            assert_eq!(stored.status, ExecutionStatus::Failed);
            assert_eq!(stored.stdout, "out");
        }
        other => panic!("unexpected {:?}", other),
    }
    assert!(matches!(server.on_request(4), ServeAction::FetchJob(4)));
}

#[test]
fn server_answers_none_for_unknown_jobs_and_failed_executions() {
    let mut server = Server::new("/work".to_string());
    server.on_request(9);
    assert!(matches!(server.on_job(None), ServeAction::ReplyNone));
    server.on_request(3);
    server.on_job(Some(pointer()));
    assert!(matches!(server.on_execution(None), ServeAction::ReplyNone));
    assert!(matches!(server.on_request(3), ServeAction::FetchJob(3)));
}
