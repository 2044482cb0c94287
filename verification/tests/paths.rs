use osprei::paths::build_database_path;
use osprei::paths::build_workspace_path;
use osprei::text::decimal;
use osprei::text::joined;
use std::path::PathBuf;

fn std_join(base: &str, suffix: &str) -> String {
    PathBuf::from(base).join(suffix).to_string_lossy().to_string()
}

#[test]
fn joined_agrees_with_std_paths() {
    let cases = [
        ("/var/data", "workspaces"),
        ("/var/data/", "workspaces"),
        ("", "workspaces"),
        ("data", ""),
        ("/var", "/etc"),
        ("relative/dir", "sub/file.txt"),
        ("/", "x"),
    ];
    for (base, suffix) in cases {
        assert_eq!(joined(base, suffix), std_join(base, suffix), "{base} + {suffix}");
    }
}

#[test]
fn server_paths_are_under_the_data_directory() {
    let paths = osprei::server::paths::PathBuilder::new("/opt/osprei".to_string());
    assert_eq!(paths.workspaces(), "/opt/osprei/workspaces");
    assert_eq!(paths.workspace("build"), "/opt/osprei/workspaces/build");
    assert_eq!(paths.results("build", 42), "/opt/osprei/results/build/42");
    assert_eq!(paths.results("build", -3), "/opt/osprei/results/build/-3");
}

#[test]
fn runner_paths_are_under_the_data_directory() {
    let paths = osprei::paths::PathBuilder::new("/etc/jobs".to_string(), "/data".to_string());
    assert_eq!(paths.job_path(), "/etc/jobs");
    assert_eq!(paths.workspace_dir(), "/data/workspaces");
    assert_eq!(paths.database_path(), "/data/data.sqlite");
    assert_eq!(build_workspace_path("d/"), "d/workspaces");
    assert_eq!(build_database_path(""), "data.sqlite");
}

#[test]
fn decimal_matches_to_string() {
    for v in [0i64, 7, 10, 99, 100, 12345, -1, -10, i64::MAX, i64::MIN] {
        assert_eq!(decimal(v), v.to_string());
    }
}
