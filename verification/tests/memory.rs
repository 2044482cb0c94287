use osprei::model::ExecutionStatus;
use osprei::model::ScheduleRequest;
use osprei::server::memory::MemoryStore;
use osprei::server::persistance::StorageError;

fn with_job(store: &mut MemoryStore) -> i64 {
    let name = String::from("test_job_name");
    let source = String::from("https://github.com/musergi/osprei.git");
    let path = String::from(".ci/test.json");
    store.store_job(name, source, path).unwrap()
}

fn is_user_error<T>(result: Result<T, StorageError>, message: &str) -> bool {
    matches!(result, Err(StorageError::UserError(m)) if m == message)
}

#[test]
fn listed_jobs_increase_on_job_added() {
    let mut store = MemoryStore::new();
    assert_eq!(store.list_jobs().unwrap().len(), 0);
    with_job(&mut store);
    assert_eq!(store.list_jobs().unwrap(), vec![0]);
    with_job(&mut store);
    assert_eq!(store.list_jobs().unwrap(), vec![0, 1]);
}

#[test]
fn get_back_job_when_using_retruned_id() {
    let mut store = MemoryStore::new();
    let name = String::from("test_job_name");
    let source = String::from("https://github.com/musergi/osprei.git");
    let path = String::from(".ci/test.json");
    let inserted_id = store
        .store_job(name.clone(), source.clone(), path.clone())
        .unwrap();
    let job = store.fetch_job(inserted_id).unwrap();
    assert_eq!(job.id, inserted_id);
    assert_eq!(job.name, name);
    assert_eq!(job.source, source);
    assert_eq!(job.path, path);
}

#[test]
fn using_invalid_id_returs_user_error() {
    let mut store = MemoryStore::new();
    assert!(is_user_error(store.fetch_job(0), "Invalid job id"));
    let id = with_job(&mut store);
    assert!(is_user_error(store.fetch_job(id + 1), "Invalid job id"));
    assert!(is_user_error(store.fetch_job(-1), "Invalid job id"));
    assert!(is_user_error(
        store.set_execution_status(3, ExecutionStatus::Success),
        "Invalid excution id"
    ));
    assert!(is_user_error(store.get_execution(3), "Invalid job id"));
    assert!(is_user_error(store.get_stdout(3), "Invalid execution id"));
}

#[test]
fn created_execution_added_to_job() {
    let mut store = MemoryStore::new();
    let job_id = with_job(&mut store);
    let execution_id = store.create_execution(job_id).unwrap();
    let execution = store.get_execution(execution_id).unwrap();
    assert_eq!(execution.execution_id, execution_id);
    assert_eq!(execution.job_name, "test_job_name");
    let recent = store.last_executions(job_id, 10).unwrap();
    assert_eq!(recent.len(), 1);
    assert_eq!(recent[0].id, execution_id);
}

#[test]
fn inserted_executions_dont_have_status() {
    let mut store = MemoryStore::new();
    let job_id = with_job(&mut store);
    let execution_id = store.create_execution(job_id).unwrap();
    let execution = store.get_execution(execution_id).unwrap();
    assert!(execution.status.is_none())
}

#[test]
fn status_properly_saved() {
    let mut store = MemoryStore::new();
    let job_id = with_job(&mut store);
    let execution_id = store.create_execution(job_id).unwrap();
    store
        .set_execution_status(execution_id, ExecutionStatus::Failed)
        .unwrap();
    let execution = store.get_execution(execution_id).unwrap();
    assert!(matches!(execution.status, Some(ExecutionStatus::Failed)));
    store
        .set_execution_status(execution_id, ExecutionStatus::Success)
        .unwrap();
    let execution = store.get_execution(execution_id).unwrap();
    assert!(matches!(execution.status, Some(ExecutionStatus::Success)));
}

#[test]
fn when_job_not_executed_last_execution_empty() {
    let mut store = MemoryStore::new();
    with_job(&mut store);
    let listing = store.list_jobs_new().unwrap();
    assert!(listing.get(0).expect("no job found").last_execution.is_none())
}

#[test]
fn when_job_added_listing_increases() {
    let mut store = MemoryStore::new();
    with_job(&mut store);
    assert_eq!(store.list_jobs_new().unwrap().len(), 1)
}

#[test]
fn when_job_executed_last_execution_present() {
    let mut store = MemoryStore::new();
    let id = with_job(&mut store);
    store.create_execution(id).unwrap();
    let listing = store.list_jobs_new().unwrap();
    assert!(listing.get(0).expect("no job found").last_execution.is_some())
}

#[test]
fn when_job_executed_and_status_set_status_present() {
    let mut store = MemoryStore::new();
    let id = with_job(&mut store);
    let execution_id = store.create_execution(id).unwrap();
    store
        .set_execution_status(execution_id, ExecutionStatus::Success)
        .unwrap();
    let listing = store.list_jobs_new().unwrap();
    assert_eq!(
        listing[0]
            .last_execution
            .as_ref()
            .expect("execution not found")
            .status
            .expect("status not set"),
        ExecutionStatus::Success
    )
}

#[test]
fn when_job_executed_and_status_not_set_status_empty() {
    let mut store = MemoryStore::new();
    let id = with_job(&mut store);
    store.create_execution(id).unwrap();
    let listing = store.list_jobs_new().unwrap();
    assert!(listing[0]
        .last_execution
        .as_ref()
        .expect("execution not found")
        .status
        .is_none())
}

#[test]
fn when_multiple_jobs_and_only_one_executed_all_lister() {
    let mut store = MemoryStore::new();
    let id = with_job(&mut store);
    store.create_execution(id).unwrap();
    with_job(&mut store);
    let listing = store.list_jobs_new().unwrap();
    assert_eq!(listing.len(), 2);
    assert!(listing[0].last_execution.is_some());
    assert!(listing[1].last_execution.is_none());
}

#[test]
fn when_execution_log_stored_it_can_be_retrieved() {
    let mut store = MemoryStore::new();
    let id = with_job(&mut store);
    let stdout = "test stdout".to_string();
    let stderr = "test stderr".to_string();
    let execution_id = store.create_execution(id).unwrap();
    assert_eq!(store.get_stdout(execution_id).unwrap(), "");
    store
        .set_execution_result(
            execution_id,
            stdout.clone(),
            stderr.clone(),
            ExecutionStatus::Success,
        )
        .unwrap();
    assert_eq!(store.get_stdout(execution_id).unwrap(), stdout);
    assert_eq!(store.get_stderr(execution_id).unwrap(), stderr);
    let details = store.get_execution(execution_id).unwrap();
    assert_eq!(details.stdout.as_deref(), Some("test stdout"));
    assert_eq!(details.status, Some(ExecutionStatus::Success));
}

#[test]
fn execution_times_are_written_as_dates() {
    let mut store = MemoryStore::new();
    let id = with_job(&mut store);
    let first = store.create_execution_at(id, 0).unwrap();
    let details = store.get_execution(first).unwrap();
    assert_eq!(details.start_time, "1970-01-01 00:00:00");
    let second = store.create_execution_at(id, 1_683_000_000).unwrap();
    let details = store.get_execution(second).unwrap();
    assert_eq!(details.start_time, "2023-05-02 04:00:00");
    let third = store.create_execution_at(id, 1_682_964_433).unwrap();
    assert_eq!(store.get_execution(third).unwrap().start_time, "2023-05-01 18:07:13");
    let last = store.create_execution_at(id, 8_210_266_876_799).unwrap();
    let details = store.get_execution(last).unwrap();
    assert!(details.start_time.ends_with("12-31 23:59:59"));
    let listing = store.list_jobs_new().unwrap();
    assert_eq!(listing[0].last_execution.as_ref().unwrap().id, last);
}

#[test]
fn latest_execution_is_the_one_started_last() {
    let mut store = MemoryStore::new();
    let id = with_job(&mut store);
    let other = with_job(&mut store);
    store.create_execution_at(id, 100).unwrap();
    let latest = store.create_execution_at(id, 300).unwrap();
    store.create_execution_at(id, 200).unwrap();
    store.create_execution_at(other, 500).unwrap();
    let tie = store.create_execution_at(other, 500).unwrap();
    let listing = store.list_jobs_new().unwrap();
    assert_eq!(listing[0].last_execution.as_ref().unwrap().id, latest);
    assert_eq!(listing[1].last_execution.as_ref().unwrap().id, tie);
}

#[test]
fn last_executions_most_recent_first() {
    let mut store = MemoryStore::new();
    let id = with_job(&mut store);
    let other = with_job(&mut store);
    let a = store.create_execution_at(id, 100).unwrap();
    let b = store.create_execution_at(id, 300).unwrap();
    store.create_execution_at(other, 1000).unwrap();
    let c = store.create_execution_at(id, 200).unwrap();
    let d = store.create_execution_at(id, 300).unwrap();
    let all: Vec<i64> = store
        .last_executions(id, 10)
        .unwrap()
        .iter()
        .map(|s| s.id)
        .collect();
    assert_eq!(all, vec![b, d, c, a]);
    let two: Vec<i64> = store
        .last_executions(id, 2)
        .unwrap()
        .iter()
        .map(|s| s.id)
        .collect();
    assert_eq!(two, vec![b, d]);
    assert!(store.last_executions(7, 10).unwrap().is_empty());
}

#[test]
fn schedules_are_listed_per_job() {
    let mut store = MemoryStore::new();
    let first = store
        .create_daily(4, ScheduleRequest { hour: 12, minute: 30 })
        .unwrap();
    let second = store
        .create_daily(5, ScheduleRequest { hour: 1, minute: 0 })
        .unwrap();
    assert_eq!((first, second), (0, 1));
    let all = store.get_all_schedules().unwrap();
    assert_eq!(all.len(), 2);
    let mine = store.get_schedules(4).unwrap();
    assert_eq!(mine.len(), 1);
    assert_eq!(mine[0].hour, 12);
    assert_eq!(mine[0].minute, 30);
    assert_eq!(mine[0].schedule_id, 0);
}

#[test]
fn storage_error_messages() {
    assert_eq!(
        StorageError::UserError("bad".to_string()).to_message(),
        "user error: bad"
    );
    assert_eq!(
        StorageError::InternalError("secret".to_string()).to_message(),
        "internal error"
    );
}

#[test]
fn executions_are_created_at_the_clock_reading() {
    let mut store = MemoryStore::new();
    let id = with_job(&mut store);
    let execution = store.create_execution_from(id, Some((1_682_964_433, 5))).unwrap();
    assert_eq!(store.get_execution(execution).unwrap().start_time, "2023-05-01 18:07:13");
    let late = store.create_execution_from(id, Some((8_210_266_876_800, 0))).unwrap();
    assert_eq!(late, execution + 1);
    assert!(!store.can_write_details(late));
    assert!(!store.can_write_listing());
    assert!(store.can_write_details(execution));
    assert!(store.can_write_details(100));
    match store.create_execution_from(id, None) {
        Err(StorageError::InternalError(message)) => assert_eq!(message, "Clock before epoch"),
        other => panic!("unexpected {:?}", other),
    }
    assert_eq!(store.execution_count(), 2);
}
