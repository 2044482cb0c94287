//! The server's handling of requests to run jobs, one at a time: look the job
//! up, create an execution only for a job that exists, answer the request with
//! the execution's identifier (or with none), run the job, and store its
//! report under the identifier that was answered before taking the next
//! request. The decisions are a state machine; its driver talks to the storage,
//! answers requests and runs jobs.
use vstd::prelude::*;
use crate::model::JobPointer;
use crate::server::execute::{JobDescriptor, Report};

verus! {

/// What the server is waiting for.
#[derive(Debug, Clone, Copy, PartialEq, Eq, Structural)]
pub enum ServePhase {
    /// The next request.
    Idle,
    /// The job a request asked for.
    AwaitJob,
    /// The execution created for that job.
    AwaitExecution,
    /// The report of the job's run.
    AwaitReport,
}

/// What the server asks its driver to do next.
#[derive(Debug)]
pub enum ServeAction {
    /// Look the job with this identifier up.
    FetchJob(i64),
    /// Create an execution of the job with this identifier.
    CreateExecution(i64),
    /// Answer the request with no execution; the server is then idle.
    ReplyNone,
    /// Answer the request with this execution's identifier, then run the job.
    ReplyAndRun(i64, JobDescriptor),
    /// Store this report under this execution; the server is then idle.
    Store(i64, Report),
}

/// The job-running side of the server.
pub struct Server {
    execution_dir: String,
    phase: ServePhase,
    job_id: i64,
    source: String,
    path: String,
    execution_id: i64,
}

impl Server {
    pub closed spec fn phase(&self) -> ServePhase {
        self.phase
    }

    /// The directory jobs are checked out into.
    pub closed spec fn execution_dir_view(&self) -> Seq<char> {
        self.execution_dir@
    }

    /// The job the request being served asked for.
    pub closed spec fn requested(&self) -> i64 {
        self.job_id
    }

    /// The source and definition path of that job, once it was found.
    pub closed spec fn job_view(&self) -> (Seq<char>, Seq<char>) {
        (self.source@, self.path@)
    }

    /// The execution the request was answered with, while its job runs.
    pub closed spec fn replied(&self) -> i64 {
        self.execution_id
    }

    /// An idle server that checks jobs out into `execution_dir`.
    pub fn new(execution_dir: String) -> (server: Server)
        ensures
            server.phase() == ServePhase::Idle,
            server.execution_dir_view() == execution_dir@,
    {
        Server {
            execution_dir,
            phase: ServePhase::Idle,
            job_id: 0,
            source: String::new(),
            path: String::new(),
            execution_id: 0,
        }
    }

    /// A request to run a job; it is taken only when the server is idle, that
    /// is, after the previous request was answered and its run stored.
    pub fn on_request(&mut self, job_id: i64) -> (action: ServeAction)
        requires
            old(self).phase() == ServePhase::Idle,
        ensures
            final(self).phase() == ServePhase::AwaitJob,
            final(self).requested() == job_id,
            final(self).execution_dir_view() == old(self).execution_dir_view(),
            action matches ServeAction::FetchJob(id) && id == job_id,
    {
        self.job_id = job_id;
        self.phase = ServePhase::AwaitJob;
        ServeAction::FetchJob(job_id)
    }

    /// The job looked up: an execution is created only for a job that
    /// exists; an unknown job is answered with no execution.
    pub fn on_job(&mut self, job: Option<JobPointer>) -> (action: ServeAction)
        requires
            old(self).phase() == ServePhase::AwaitJob,
        ensures
            final(self).requested() == old(self).requested(),
            final(self).execution_dir_view() == old(self).execution_dir_view(),
            job is None ==> final(self).phase() == ServePhase::Idle && action is ReplyNone,
            job matches Some(found) ==> {
                &&& final(self).phase() == ServePhase::AwaitExecution
                &&& final(self).job_view() == (found.source@, found.path@)
                &&& action matches ServeAction::CreateExecution(id) && id == old(self).requested()
            },
    {
        match job {
            None => {
                self.phase = ServePhase::Idle;
                ServeAction::ReplyNone
            },
            Some(found) => {
                self.source = found.source;
                self.path = found.path;
                self.phase = ServePhase::AwaitExecution;
                ServeAction::CreateExecution(self.job_id)
            },
        }
    }

    /// The execution created for the job, if one could be: the request is
    /// answered with its identifier and the job runs, from its source and
    /// definition path, in the execution directory; otherwise the request is
    /// answered with no execution.
    pub fn on_execution(&mut self, execution_id: Option<i64>) -> (action: ServeAction)
        requires
            old(self).phase() == ServePhase::AwaitExecution,
        ensures
            final(self).execution_dir_view() == old(self).execution_dir_view(),
            execution_id is None ==> final(self).phase() == ServePhase::Idle
                && action is ReplyNone,
            execution_id matches Some(e) ==> {
                &&& final(self).phase() == ServePhase::AwaitReport
                &&& final(self).replied() == e
                &&& action matches ServeAction::ReplyAndRun(id, descriptor)
                &&& id == e
                &&& descriptor.execution_dir@ == old(self).execution_dir_view()
                &&& descriptor.source@ == old(self).job_view().0
                &&& descriptor.path@ == old(self).job_view().1
            },
    {
        match execution_id {
            None => {
                self.phase = ServePhase::Idle;
                ServeAction::ReplyNone
            },
            Some(e) => {
                self.execution_id = e;
                self.phase = ServePhase::AwaitReport;
                let descriptor = JobDescriptor {
                    execution_dir: self.execution_dir.clone(),
                    source: self.source.clone(),
                    path: self.path.clone(),
                };
                ServeAction::ReplyAndRun(e, descriptor)
            },
        }
    }

    /// The job's run ended with `report`: it is stored under the execution
    /// the request was answered with, and the server takes the next request.
    pub fn on_report(&mut self, report: Report) -> (action: ServeAction)
        requires
            old(self).phase() == ServePhase::AwaitReport,
        ensures
            final(self).phase() == ServePhase::Idle,
            final(self).execution_dir_view() == old(self).execution_dir_view(),
            action matches ServeAction::Store(id, stored) && id == old(self).replied()
                && stored@ == report@,
    {
        self.phase = ServePhase::Idle;
        ServeAction::Store(self.execution_id, report)
    }
}

} // verus!
