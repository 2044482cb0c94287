//! Running the stages of a job one after the other, keeping a summary of
//! each, and stopping after the first stage that fails.
use vstd::prelude::*;
use crate::model::StageExecutionSummary;
use crate::text::{joined, joined_path};

verus! {

/// Runs jobs: sources are checked out into `source_dir` and the outputs of
/// the stages written into `result_dir`.
pub struct JobRunner {
    source_dir: String,
    result_dir: String,
}

impl JobRunner {
    pub closed spec fn source_dir_view(&self) -> Seq<char> {
        self.source_dir@
    }

    pub closed spec fn result_dir_view(&self) -> Seq<char> {
        self.result_dir@
    }

    /// A runner checking out into `source_dir` and writing into `result_dir`.
    pub fn new(source_dir: String, result_dir: String) -> (runner: JobRunner)
        ensures
            runner.source_dir_view() == source_dir@,
            runner.result_dir_view() == result_dir@,
    {
        JobRunner { source_dir, result_dir }
    }

    /// The directory the sources are checked out into.
    pub fn source_dir(&self) -> (dir: &str)
        ensures
            dir@ == self.source_dir_view(),
    {
        self.source_dir.as_str()
    }

    /// The arguments of the `git` command that checks a repository out.
    pub fn checkout_arguments(&self, repo_url: &str) -> (args: Vec<String>)
        ensures
            args@.len() == 3,
            args@[0]@ == "clone"@,
            args@[1]@ == repo_url@,
            args@[2]@ == self.source_dir_view(),
    {
        let mut args: Vec<String> = Vec::new();
        args.push("clone".to_owned());
        args.push(repo_url.to_owned());
        args.push(self.source_dir.clone());
        args
    }

    /// The file the standard output of a stage is written to.
    pub fn stdout_path(&self) -> (path: String)
        ensures
            path@ == joined_path(self.result_dir_view(), "stdout.txt"@),
    {
        joined(self.result_dir.as_str(), "stdout.txt")
    }

    /// The file the error output of a stage is written to.
    pub fn stderr_path(&self) -> (path: String)
        ensures
            path@ == joined_path(self.result_dir_view(), "stderr.txt"@),
    {
        joined(self.result_dir.as_str(), "stderr.txt")
    }
}

/// The summaries of the stages of a job run so far.
pub struct StageProgress {
    summaries: Vec<StageExecutionSummary>,
    total: usize,
    stopped: bool,
}

impl StageProgress {
    /// The summaries of the stages run so far, in order.
    pub closed spec fn summaries_view(&self) -> Seq<StageExecutionSummary> {
        self.summaries@
    }

    /// The exit statuses of the stages run so far, in order.
    pub closed spec fn statuses(&self) -> Seq<i32> {
        self.summaries@.map_values(|s: StageExecutionSummary| s.status)
    }

    /// The number of stages of the job.
    pub closed spec fn total(&self) -> nat {
        self.total as nat
    }

    /// Whether another stage is to run.
    pub open spec fn runs_more(&self) -> bool {
        &&& self.statuses().len() < self.total()
        &&& forall|i: int| 0 <= i < self.statuses().len() ==> #[trigger] self.statuses()[i] == 0
    }

    /// Well-formedness: every stage run so far but the last succeeded, and
    /// the run stopped exactly when one failed or none is left.
    pub closed spec fn wf(&self) -> bool {
        &&& self.summaries@.len() <= self.total
        &&& forall|i: int|
            0 <= i < self.summaries@.len() - 1 ==> #[trigger] self.summaries@[i].status == 0
        &&& self.stopped <==> (self.summaries@.len() > 0 && self.summaries@.last().status != 0)
    }

    /// No stage run yet, out of `total`.
    pub fn new(total: usize) -> (progress: StageProgress)
        ensures
            progress.wf(),
            progress.summaries_view() == Seq::<StageExecutionSummary>::empty(),
            progress.statuses() == Seq::<i32>::empty(),
            progress.total() == total,
    {
        StageProgress { summaries: Vec::new(), total, stopped: false }
    }

    /// Whether another stage is to run: one is left and none failed.
    pub fn has_next(&self) -> (more: bool)
        requires
            self.wf(),
        ensures
            more == self.runs_more(),
    {
        proof {
            assert(self.statuses().len() == self.summaries@.len());
            if self.stopped {
                assert(self.statuses()[self.statuses().len() - 1] != 0);
            } else {
                assert forall|i: int| 0 <= i < self.statuses().len() implies #[trigger] self.statuses()[i]
                    == 0 by {
                    assert(self.statuses()[i] == self.summaries@[i].status);
                }
            }
        }
        !self.stopped && self.summaries.len() < self.total
    }

    /// The index of the next stage to run.
    pub fn next_index(&self) -> (index: usize)
        requires
            self.wf(),
        ensures
            index == self.statuses().len(),
    {
        self.summaries.len()
    }

    /// Records the summary of the stage that just ran; tells whether another
    /// stage is to run.
    pub fn record(&mut self, summary: StageExecutionSummary) -> (more: bool)
        requires
            old(self).wf(),
            old(self).runs_more(),
        ensures
            final(self).wf(),
            final(self).total() == old(self).total(),
            final(self).summaries_view() == old(self).summaries_view().push(summary),
            final(self).statuses() == old(self).statuses().push(summary.status),
            more == final(self).runs_more(),
    {
        let status = summary.status;
        proof {
            assert forall|i: int| 0 <= i < self.summaries@.len() implies #[trigger] self.summaries@[i].status
                == 0 by {
                assert(old(self).statuses()[i] == self.summaries@[i].status);
            }
        }
        self.summaries.push(summary);
        self.stopped = status != 0;
        assert(self.statuses() =~= old(self).statuses().push(status));
        self.has_next()
    }

    /// The summaries of the stages that ran, in order.
    pub fn into_summaries(self) -> (summaries: Vec<StageExecutionSummary>)
        requires
            self.wf(),
        ensures
            summaries@ == self.summaries_view(),
            summaries@.map_values(|s: StageExecutionSummary| s.status) == self.statuses(),
    {
        self.summaries
    }
}

/// A run stops only after a failed stage or after the last stage: the stages
/// that ran all succeeded but possibly the last, and when fewer stages ran
/// than the job has, the last of them failed.
pub proof fn law_stop_after_failure(progress: StageProgress)
    requires
        progress.wf(),
        !progress.runs_more(),
    ensures
        forall|i: int|
            0 <= i < progress.statuses().len() - 1 ==> #[trigger] progress.statuses()[i] == 0,
        progress.statuses().len() < progress.total() ==> progress.statuses().len() > 0
            && progress.statuses().last() != 0,
{
    assert forall|i: int| 0 <= i < progress.statuses().len() - 1 implies #[trigger] progress.statuses()[i]
        == 0 by {
        assert(progress.statuses()[i] == progress.summaries@[i].status);
    }
}

} // verus!
