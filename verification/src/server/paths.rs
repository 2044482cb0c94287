//! Where the server keeps workspaces, results and its database.
use vstd::prelude::*;
use crate::text::{decimal, decimal_text, joined, joined_path};

verus! {

/// The paths used by the server, derived from its data directory.
#[derive(Debug, Clone)]
pub struct PathBuilder {
    workspace_dir: String,
    result_dir: String,
    _database_path: String,
}

impl PathBuilder {
    pub closed spec fn workspace_dir_view(&self) -> Seq<char> {
        self.workspace_dir@
    }

    pub closed spec fn result_dir_view(&self) -> Seq<char> {
        self.result_dir@
    }

    pub closed spec fn database_path_view(&self) -> Seq<char> {
        self._database_path@
    }

    /// Workspaces go to `data_path/workspaces`, results to
    /// `data_path/results` and the database to `data_path/data.sqlite`.
    pub fn new(data_path: String) -> (paths: PathBuilder)
        ensures
            paths.workspace_dir_view() == joined_path(data_path@, "workspaces"@),
            paths.result_dir_view() == joined_path(data_path@, "results"@),
            paths.database_path_view() == joined_path(data_path@, "data.sqlite"@),
    {
        let workspace_dir = build_workspace_path(data_path.as_str());
        let _database_path = build_database_path(data_path.as_str());
        let result_dir = build_result_path(data_path.as_str());
        PathBuilder { workspace_dir, result_dir, _database_path }
    }

    /// The directory holding all workspaces.
    pub fn workspaces(&self) -> (path: &str)
        ensures
            path@ == self.workspace_dir_view(),
    {
        self.workspace_dir.as_str()
    }

    /// The workspace of a job.
    pub fn workspace(&self, job_name: &str) -> (path: String)
        ensures
            path@ == joined_path(self.workspace_dir_view(), job_name@),
    {
        joined(self.workspace_dir.as_str(), job_name)
    }

    /// The directory holding the results of one execution of a job.
    pub fn results(&self, job_name: &str, execution_id: i64) -> (path: String)
        ensures
            path@ == joined_path(
                joined_path(self.result_dir_view(), job_name@),
                decimal_text(execution_id as int),
            ),
    {
        let job_dir = joined(self.result_dir.as_str(), job_name);
        let id = decimal(execution_id);
        joined(job_dir.as_str(), id.as_str())
    }
}

/// The workspaces directory under a data directory.
pub fn build_workspace_path(data_path: &str) -> (path: String)
    ensures
        path@ == joined_path(data_path@, "workspaces"@),
{
    joined(data_path, "workspaces")
}

/// The database file under a data directory.
pub fn build_database_path(data_path: &str) -> (path: String)
    ensures
        path@ == joined_path(data_path@, "data.sqlite"@),
{
    joined(data_path, "data.sqlite")
}

/// The results directory under a data directory.
pub fn build_result_path(data_path: &str) -> (path: String)
    ensures
        path@ == joined_path(data_path@, "results"@),
{
    joined(data_path, "results")
}

} // verus!
