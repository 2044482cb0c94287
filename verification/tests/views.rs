use osprei::model::EnvironmentDefinition;
use osprei::model::ExecutionStatus;
use osprei::model::Job;
use osprei::server::views::container_plan;
use osprei::server::views::last_execution;
use osprei::server::views::stored_status;
use osprei::server::views::Error;

#[test]
fn database_errors_hide_their_details() {
    let reply = Error::DatabaseError("disk I/O error".to_string()).to_reply();
    assert_eq!(reply.status, 500);
    assert_eq!(reply.message, "Internal server error");
}

#[test]
fn missing_items_are_not_found() {
    let reply = Error::NotFound.to_reply();
    assert_eq!(reply.status, 404);
    assert_eq!(reply.message, "Not found");
}

#[test]
fn last_execution_needs_an_execution_and_a_start_time() {
    let last = last_execution(Some(4), Some("2023-05-01 18:07:13".to_string()), Some(1)).unwrap();
    assert_eq!(last.id, 4);
    assert_eq!(last.start_time, "2023-05-01 18:07:13");
    assert_eq!(last.status, Some(ExecutionStatus::Failed));
    let running = last_execution(Some(5), Some("t".to_string()), None).unwrap();
    assert_eq!(running.status, None);
    assert!(last_execution(None, None, None).is_none());
    assert!(last_execution(Some(4), None, None).is_none());
    assert!(last_execution(None, Some("t".to_string()), Some(0)).is_none());
}

#[test]
fn jobs_run_in_their_checkout() {
    let job = Job {
        source: "https://github.com/musergi/osprei.git".to_string(),
        image: "rust:latest".to_string(),
        command: "cargo".to_string(),
        arguments: vec!["test".to_string(), "--all".to_string()],
        working_directory: ".".to_string(),
        environment: vec![EnvironmentDefinition {
            key: "RUST_LOG".to_string(),
            value: "debug".to_string(),
        }],
    };
    let plan = container_plan("osprei", &job);
    assert_eq!(plan.checkout_path, "/opt/osprei/var/workspace/osprei");
    assert_eq!(
        plan.volume,
        "/opt/osprei/var/workspace/osprei:/opt/osprei/var/workspace/osprei"
    );
    assert_eq!(plan.image, "rust:latest");
    assert_eq!(plan.command, vec!["cargo", "test", "--all"]);
}

#[test]
fn container_exit_codes_are_stored_as_success_or_failure() {
    assert_eq!(stored_status(0), 0);
    assert_eq!(stored_status(1), 1);
    assert_eq!(stored_status(137), 1);
    assert_eq!(stored_status(-1), 1);
}
