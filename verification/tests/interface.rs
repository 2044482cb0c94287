use osprei::cli::job_lines;
use osprei::cli::listing;
use osprei::cli::JobLine;
use osprei::cli::status_label;
use osprei::gui::card_execution_status;
use osprei::gui::card_start_time;
use osprei::gui::card_status;
use osprei::gui::underscores_as_spaces;
use osprei::gui::with_first_replaced;
use osprei::gui::capitalize;
use osprei::gui::display_job_name;
use osprei::gui::duration_text;
use osprei::gui::job_title;
use osprei::gui::Action;
use osprei::gui::ActionQueue;
use osprei::gui::ExecutionStatus;
use osprei::gui::JobData;
use osprei::gui::Stage;
use osprei::gui::StageWithChildren;
use osprei::model::JobOverview;
use osprei::model::LastExecution;

fn last(status: Option<osprei::model::ExecutionStatus>) -> LastExecution {
    LastExecution {
        id: 1,
        start_time: "2023-05-01 18:07:13".to_string(),
        status,
    }
}

#[test]
fn cli_status_labels() {
    assert_eq!(status_label(&None), "Not executed");
    assert_eq!(status_label(&Some(last(None))), "Running");
    assert_eq!(
        status_label(&Some(last(Some(osprei::model::ExecutionStatus::Success)))),
        "Success"
    );
    assert_eq!(
        status_label(&Some(last(Some(osprei::model::ExecutionStatus::Failed)))),
        "Failed"
    );
    assert_eq!(
        status_label(&Some(last(Some(osprei::model::ExecutionStatus::InvalidConfig)))),
        "Invalid config"
    );
}

#[test]
fn cli_lines_follow_jobs() {
    let lines = job_lines(vec![
        JobOverview { id: 3, name: "a".to_string(), last_execution: None },
        JobOverview { id: 9, name: "b".to_string(), last_execution: Some(last(None)) },
    ]);
    assert_eq!(lines.len(), 2);
    assert_eq!((lines[0].id, lines[0].name.as_str(), lines[0].status.as_str()), (3, "a", "Not executed"));
    assert_eq!((lines[1].id, lines[1].name.as_str(), lines[1].status.as_str()), (9, "b", "Running"));
}

#[test]
fn gui_status_and_job_data() {
    assert_eq!(ExecutionStatus::default(), ExecutionStatus::NotExecuted);
    assert_eq!(ExecutionStatus::from(None), ExecutionStatus::Running);
    assert_eq!(
        ExecutionStatus::from(Some(osprei::model::ExecutionStatus::InvalidConfig)),
        ExecutionStatus::Error
    );
    assert_eq!(ExecutionStatus::NotExecuted.to_string(), "Not executed");
    assert_eq!(ExecutionStatus::Error.to_string(), "Error");
    let data = JobData::from(None);
    assert_eq!(data.status, ExecutionStatus::NotExecuted);
    assert_eq!(data.start_time, "");
    let data = JobData::from(Some(last(Some(osprei::model::ExecutionStatus::Success))));
    assert_eq!(data.status, ExecutionStatus::Success);
    assert_eq!(data.start_time, "2023-05-01 18:07:13");
}

#[test]
fn card_texts() {
    assert_eq!(card_status(Some(0)), "Success");
    assert_eq!(card_status(Some(1)), "Failure");
    assert_eq!(card_status(Some(2)), "Canceled");
    assert_eq!(card_status(Some(7)), "Unknown");
    assert_eq!(card_status(None), "Executing");
    assert_eq!(duration_text(Some(12)), "12 secs");
    assert_eq!(duration_text(None), "");
    assert_eq!(display_job_name("build_and_test"), "BUILD AND TEST");
    assert_eq!(capitalize("osprei"), "Osprei");
    assert_eq!(capitalize(""), "");
    assert_eq!(capitalize("ßx"), "SSx");
}

#[test]
fn action_queue_hands_out_increasing_ids() {
    let mut queue = ActionQueue::new();
    assert_eq!(queue.first(), None);
    queue.add(Action::Run(7));
    queue.add(Action::Run(8));
    assert_eq!(queue.first(), Some(1));
    queue.remove(1);
    assert_eq!(queue.first(), Some(2));
    queue.add(Action::Run(9));
    match queue.fetch(3) {
        Some(Action::Run(job)) => assert_eq!(job, 9),
        _ => panic!("action 3 not found"),
    }
}

#[test]
fn fetching_unknown_action_gives_nothing() {
    let mut queue = ActionQueue::new();
    queue.add(Action::Run(1));
    assert!(queue.fetch(5).is_none());
}

fn stage(id: i64, dependency: Option<i64>, description: &str) -> Stage {
    Stage { id, dependency, description: description.to_string() }
}

#[test]
fn stage_tree_follows_dependencies() {
    let stages = vec![
        stage(10, None, "checkout"),
        stage(11, Some(10), "build"),
        stage(12, Some(10), "lint"),
        stage(13, Some(11), "test"),
    ];
    let root = StageWithChildren::new(&stages);
    assert_eq!(root.id, 10);
    assert_eq!(root.name, "checkout");
    assert_eq!(root.children.len(), 2);
    assert_eq!(root.children[0].name, "build");
    assert_eq!(root.children[0].children.len(), 1);
    assert_eq!(root.children[0].children[0].id, 13);
    assert_eq!(root.children[1].name, "lint");
    assert!(root.children[1].children.is_empty());
}

#[test]
fn job_titles_come_from_the_repository_name() {
    assert_eq!(job_title("https://github.com/musergi/osprei.git").as_deref(), Some("osprei"));
    assert_eq!(job_title("https://host/a.b.c").as_deref(), Some("a"));
    assert_eq!(job_title("https://x.y").as_deref(), Some("x"));
    assert_eq!(job_title("git@github.com:x/y.git"), None);
    assert_eq!(job_title("https://host/path/noext"), None);
    assert_eq!(capitalize(&job_title("https://github.com/musergi/osprei.git").unwrap()), "Osprei");
}

#[test]
fn empty_listing_hints_at_adding_a_job() {
    assert_eq!(listing(&Vec::new()), "No jobs yet, try adding a job.\n");
}

#[test]
fn listing_shows_each_job_on_three_lines() {
    let lines = vec![
        JobLine { id: 1, name: "build".to_string(), status: "Success".to_string() },
        JobLine { id: -2, name: "lint".to_string(), status: "Running".to_string() },
    ];
    assert_eq!(
        listing(&lines),
        "- id: 1\n  name: build\n  status: Success\n- id: -2\n  name: lint\n  status: Running\n"
    );
}

#[test]
fn stage_trees_follow_dependencies_listed_later() {
    let stages = vec![
        Stage { id: 1, dependency: None, description: "root".to_string() },
        Stage { id: 3, dependency: Some(2), description: "leaf".to_string() },
        Stage { id: 2, dependency: Some(1), description: "middle".to_string() },
    ];
    let root = StageWithChildren::new(&stages);
    assert_eq!(root.name, "root");
    assert_eq!(root.children.len(), 1);
    assert_eq!(root.children[0].name, "middle");
    assert_eq!(root.children[0].children.len(), 1);
    assert_eq!(root.children[0].children[0].id, 3);
    assert!(root.children[0].children[0].children.is_empty());
}

#[test]
fn notifications_take_queued_actions_off() {
    let mut queue = ActionQueue::new();
    assert_eq!(queue.notification_step(None), (false, None));
    queue.add(Action::Run(7));
    queue.add(Action::Run(8));
    assert_eq!(queue.notification_step(Some(1)), (true, None));
    assert_eq!(queue.first(), Some(2));
    assert_eq!(
        queue.notification_step(Some(5)),
        (false, Some("Action not found: 5".to_string()))
    );
    assert_eq!(queue.first(), Some(2));
}

#[test]
fn cards_show_what_is_not_loaded() {
    assert_eq!(card_start_time(None), "Not loaded");
    assert_eq!(card_start_time(Some("2023-05-01 18:07:13".to_string())), "2023-05-01 18:07:13");
    assert_eq!(card_execution_status(None), "Not loaded");
    assert_eq!(card_execution_status(Some(None)), "Executing");
    assert_eq!(card_execution_status(Some(Some(1))), "Failure");
}

#[test]
fn upper_case_text_is_finished_by_the_library() {
    assert_eq!(underscores_as_spaces("MY_JOB_1"), "MY JOB 1");
    assert_eq!(underscores_as_spaces("__"), "  ");
    assert_eq!(with_first_replaced("SS".to_string(), "ßtraße"), "SStraße");
    assert_eq!(with_first_replaced("O".to_string(), "osprei"), "Osprei");
}
