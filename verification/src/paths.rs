//! Where the standalone runner keeps its jobs, its workspaces and its
//! database.
use vstd::prelude::*;
use crate::text::{joined, joined_path};

verus! {

/// The paths used by the runner, derived from its configuration.
#[derive(Debug)]
pub struct PathBuilder {
    job_path: String,
    workspace_dir: String,
    database_path: String,
}

impl PathBuilder {
    pub closed spec fn job_path_view(&self) -> Seq<char> {
        self.job_path@
    }

    pub closed spec fn workspace_dir_view(&self) -> Seq<char> {
        self.workspace_dir@
    }

    pub closed spec fn database_path_view(&self) -> Seq<char> {
        self.database_path@
    }

    /// Jobs live under `job_path`; workspaces under `data_path/workspaces` and
    /// the database at `data_path/data.sqlite`.
    pub fn new(job_path: String, data_path: String) -> (paths: PathBuilder)
        ensures
            paths.job_path_view() == job_path@,
            paths.workspace_dir_view() == joined_path(data_path@, "workspaces"@),
            paths.database_path_view() == joined_path(data_path@, "data.sqlite"@),
    {
        let workspace_dir = build_workspace_path(data_path.as_str());
        let database_path = build_database_path(data_path.as_str());
        PathBuilder { job_path, workspace_dir, database_path }
    }

    /// The directory holding the job definitions.
    pub fn job_path(&self) -> (path: &str)
        ensures
            path@ == self.job_path_view(),
    {
        self.job_path.as_str()
    }

    /// The path of the database file.
    pub fn database_path(&self) -> (path: &str)
        ensures
            path@ == self.database_path_view(),
    {
        self.database_path.as_str()
    }

    /// The directory holding the workspaces.
    pub fn workspace_dir(&self) -> (path: &str)
        ensures
            path@ == self.workspace_dir_view(),
    {
        self.workspace_dir.as_str()
    }
}

/// The workspaces directory under a data directory.
pub fn build_workspace_path(data_path: &str) -> (path: String)
    ensures
        path@ == joined_path(data_path@, "workspaces"@),
{
    joined(data_path, "workspaces")
}

/// The database file under a data directory.
pub fn build_database_path(data_path: &str) -> (path: String)
    ensures
        path@ == joined_path(data_path@, "data.sqlite"@),
{
    joined(data_path, "data.sqlite")
}

} // verus!
