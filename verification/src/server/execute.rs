//! Execution of a job: clean the workspace, check the code out, run the
//! stages of the job one after the other until one of them fails, and clean
//! the workspace again. The decisions are a state machine; whoever drives it
//! performs the actions it asks for and hands back what they produced.
use vstd::prelude::*;
use crate::model::{EnvironmentDefinition, ExecutionStatus, JobPointer, StageExecutionSummary};
use crate::text::{push_char, utf8_lossy, utf8_lossy_text};

verus! {

/// What an execution (or one step of it) produced.
#[derive(Debug)]
pub struct Report {
    pub status: ExecutionStatus,
    pub stdout: String,
    pub stderr: String,
}

/// The mathematical value of a [`Report`].
pub struct ReportView {
    pub status: ExecutionStatus,
    pub stdout: Seq<char>,
    pub stderr: Seq<char>,
}

impl View for Report {
    type V = ReportView;

    open spec fn view(&self) -> ReportView {
        ReportView { status: self.status, stdout: self.stdout@, stderr: self.stderr@ }
    }
}

impl Report {
    /// A copy of this report.
    pub fn duplicate(&self) -> (copy: Report)
        ensures
            copy@ == self@,
    {
        Report { status: self.status, stdout: self.stdout.clone(), stderr: self.stderr.clone() }
    }
}

/// What a finished process left behind: its exit code, if it exited with
/// one, and its two outputs.
#[derive(Debug)]
pub struct ProcessOutput {
    pub code: Option<i32>,
    pub stdout: Vec<u8>,
    pub stderr: Vec<u8>,
}

impl Report {
    /// The report of a finished process: a success exactly when it exited
    /// with code 0, with its outputs decoded as UTF-8.
    pub fn from(value: ProcessOutput) -> (report: Report)
        ensures
            report.status == (if value.code == Some(0i32) {
                ExecutionStatus::Success
            } else {
                ExecutionStatus::Failed
            }),
            report.stdout@ == utf8_lossy_text(value.stdout@),
            report.stderr@ == utf8_lossy_text(value.stderr@),
    {
        let status = match value.code {
            Some(0) => ExecutionStatus::Success,
            _ => ExecutionStatus::Failed,
        };
        let stdout = utf8_lossy(value.stdout.as_slice());
        let stderr = utf8_lossy(value.stderr.as_slice());
        Report { status, stdout, stderr }
    }

    /// The report of a process that could not be started: an invalid
    /// configuration, with the error as its error output.
    pub fn spawn_failure(error: String) -> (report: Report)
        ensures
            report.status == ExecutionStatus::InvalidConfig,
            report.stdout@ == Seq::<char>::empty(),
            report.stderr@ == error@,
    {
        Report { status: ExecutionStatus::InvalidConfig, stdout: String::new(), stderr: error }
    }
}

/// Combines the report of cloning the sources with the outcome of reading the
/// job definition: a definition that cannot be read turns the checkout into
/// a failure with an invalid configuration, whose error output ends with the
/// reason and a line break.
pub fn checkout_result(report: Report, definition: Result<JobDefinition, String>) -> (result:
    CheckoutResult)
    ensures
        definition is Ok ==> {
            &&& result is Ok
            &&& result->Ok_0.0@ == report@
            &&& result->Ok_0.1 == definition->Ok_0
        },
        definition is Err ==> {
            &&& result is Err
            &&& result->Err_0.status == ExecutionStatus::InvalidConfig
            &&& result->Err_0.stdout@ == report.stdout@
            &&& result->Err_0.stderr@ == report.stderr@ + definition->Err_0@ + seq!['\n']
        },
{
    match definition {
        Ok(job) => Ok((report, job)),
        Err(reason) => {
            let mut report = report;
            report.status = ExecutionStatus::InvalidConfig;
            report.stderr.append(reason.as_str());
            push_char(&mut report.stderr, '\n');
            Err(report)
        },
    }
}

/// The status of an execution whose stages produced these summaries: a
/// failure as soon as one stage exited with a non-zero status.
pub open spec fn summaries_status_spec(statuses: Seq<i32>) -> ExecutionStatus {
    if exists|i: int| 0 <= i < statuses.len() && statuses[i] != 0 {
        ExecutionStatus::Failed
    } else {
        ExecutionStatus::Success
    }
}

/// The status of an execution is a failure exactly when one of its stages,
/// whichever it is, exited with a non-zero status, and a success otherwise:
/// stages that all exited with 0 give a success, a failing stage anywhere
/// gives a failure, and more stages after a failure keep it.
pub proof fn law_failed_when_any_stage_failed(statuses: Seq<i32>, k: int, more: Seq<i32>)
    ensures
        summaries_status_spec(statuses) == ExecutionStatus::Failed
            || summaries_status_spec(statuses) == ExecutionStatus::Success,
        (forall|i: int| 0 <= i < statuses.len() ==> #[trigger] statuses[i] == 0)
            ==> summaries_status_spec(statuses) == ExecutionStatus::Success,
        0 <= k < statuses.len() && statuses[k] != 0 ==> summaries_status_spec(statuses)
            == ExecutionStatus::Failed,
        statuses.len() == 1 && statuses[0] != 0 ==> summaries_status_spec(statuses)
            == ExecutionStatus::Failed,
        summaries_status_spec(statuses) == ExecutionStatus::Failed ==> summaries_status_spec(
            statuses + more,
        ) == ExecutionStatus::Failed,
{
    if summaries_status_spec(statuses) == ExecutionStatus::Failed {
        let i = choose|i: int| 0 <= i < statuses.len() && statuses[i] != 0;
        assert((statuses + more)[i] == statuses[i]);
    }
}

/// The exit statuses of some stage summaries.
pub open spec fn summary_statuses(summaries: Seq<StageExecutionSummary>) -> Seq<i32> {
    summaries.map_values(|s: StageExecutionSummary| s.status)
}

/// The status stored for an execution whose stages produced these summaries.
pub fn summaries_status(stage_summaries: &[StageExecutionSummary]) -> (status: ExecutionStatus)
    ensures
        status == summaries_status_spec(summary_statuses(stage_summaries@)),
        status == ExecutionStatus::Failed || status == ExecutionStatus::Success,
        status == ExecutionStatus::Failed <==> exists|i: int|
            0 <= i < stage_summaries@.len() && #[trigger] stage_summaries@[i].status != 0,
{
    let mut i: usize = 0;
    let ghost statuses = summary_statuses(stage_summaries@);
    while i < stage_summaries.len()
        invariant
            i <= stage_summaries@.len(),
            statuses == summary_statuses(stage_summaries@),
            forall|j: int| 0 <= j < i ==> statuses[j] == 0,
            forall|j: int| 0 <= j < i ==> #[trigger] stage_summaries@[j].status == 0,
        decreases stage_summaries@.len() - i,
    {
        if stage_summaries[i].status != 0 {
            assert(statuses[i as int] != 0);
            return ExecutionStatus::Failed;
        }
        i = i + 1;
    }
    ExecutionStatus::Success
}

/// One stage of a job: a command run in a directory of the checkout.
#[derive(Debug)]
pub struct Stage {
    pub cmd: String,
    pub args: Vec<String>,
    pub path: String,
    pub env: Vec<EnvironmentDefinition>,
}

/// The definition of a job as read from its repository: its stages, in order.
#[derive(Debug)]
pub struct JobDefinition {
    pub stages: Vec<Stage>,
}

/// Where a job's code comes from and where it is checked out.
#[derive(Debug)]
pub struct JobDescriptor {
    /// Clone directory for the source repo
    pub execution_dir: String,
    /// Git repository to clone
    pub source: String,
    /// Path within the repository of the job definition
    pub path: String,
}

/// What the execution asks its driver to do next.
#[derive(Debug, Clone, Copy, PartialEq, Eq, Structural)]
pub enum JobAction {
    /// Remove the checkout directory.
    Cleanup,
    /// Clone the source and read the job definition.
    Checkout,
    /// Run the stage with this index.
    ExecuteStage(usize),
    /// Nothing more to do: the report is final.
    Finish,
}

/// What the execution is waiting for.
#[derive(Debug, Clone, Copy, PartialEq, Eq, Structural)]
pub enum JobPhase {
    AwaitInitialCleanup,
    AwaitCheckout,
    AwaitStage,
    AwaitFinalCleanup,
    Done,
}

/// Outcome of a checkout: the checkout's own report and the job definition
/// read from it, or the report of a failed checkout.
pub type CheckoutResult = Result<(Report, JobDefinition), Report>;

/// A job execution in progress.
pub struct JobExecution {
    descriptor: JobDescriptor,
    phase: JobPhase,
    report: Report,
    stages: Vec<Stage>,
    current: usize,
}

impl JobExecution {
    pub closed spec fn phase(&self) -> JobPhase {
        self.phase
    }

    pub closed spec fn report_view(&self) -> ReportView {
        self.report@
    }

    pub closed spec fn stage_count(&self) -> nat {
        self.stages@.len()
    }

    /// The stages of the job, once its definition was read.
    pub closed spec fn stages_view(&self) -> Seq<Stage> {
        self.stages@
    }

    pub closed spec fn current_stage(&self) -> nat {
        self.current as nat
    }

    pub closed spec fn descriptor_view(&self) -> (Seq<char>, Seq<char>, Seq<char>) {
        (self.descriptor.execution_dir@, self.descriptor.source@, self.descriptor.path@)
    }

    /// Well-formedness: while a stage runs, it is one of the job's stages.
    pub closed spec fn wf(&self) -> bool {
        &&& self.current <= self.stages@.len()
        &&& self.phase == JobPhase::AwaitStage ==> self.current < self.stages@.len()
    }

    /// The stage with the given index.
    pub fn stage(&self, index: usize) -> (stage: &Stage)
        requires
            index < self.stage_count(),
        ensures
            *stage == self.stages_view()[index as int],
    {
        &self.stages[index]
    }

    /// The directory the code is checked out into.
    pub fn execution_dir(&self) -> (dir: &str)
        ensures
            dir@ == self.descriptor_view().0,
    {
        self.descriptor.execution_dir.as_str()
    }

    /// The repository the code comes from.
    pub fn source(&self) -> (source: &str)
        ensures
            source@ == self.descriptor_view().1,
    {
        self.descriptor.source.as_str()
    }

    /// The path of the job definition inside the repository.
    pub fn definition_path(&self) -> (path: &str)
        ensures
            path@ == self.descriptor_view().2,
    {
        self.descriptor.path.as_str()
    }

    /// A cleanup finished: after the first one the code is checked out, after
    /// the last one the execution is over.
    pub fn on_cleaned_up(&mut self) -> (action: JobAction)
        requires
            old(self).wf(),
            old(self).phase() == JobPhase::AwaitInitialCleanup || old(self).phase()
                == JobPhase::AwaitFinalCleanup,
        ensures
            final(self).wf(),
            final(self).report_view() == old(self).report_view(),
            final(self).stage_count() == old(self).stage_count(),
            final(self).stages_view() == old(self).stages_view(),
            final(self).current_stage() == old(self).current_stage(),
            final(self).descriptor_view() == old(self).descriptor_view(),
            old(self).phase() == JobPhase::AwaitInitialCleanup ==> {
                &&& final(self).phase() == JobPhase::AwaitCheckout
                &&& action == JobAction::Checkout
            },
            old(self).phase() == JobPhase::AwaitFinalCleanup ==> {
                &&& final(self).phase() == JobPhase::Done
                &&& action == JobAction::Finish
            },
    {
        if self.phase == JobPhase::AwaitInitialCleanup {
            self.phase = JobPhase::AwaitCheckout;
            JobAction::Checkout
        } else {
            self.phase = JobPhase::Done;
            JobAction::Finish
        }
    }

    /// The checkout finished. A failed checkout ends the execution with its
    /// report; a successful one starts the first stage, if there is one.
    pub fn on_checkout(&mut self, result: CheckoutResult) -> (action: JobAction)
        requires
            old(self).wf(),
            old(self).phase() == JobPhase::AwaitCheckout,
        ensures
            final(self).wf(),
            final(self).descriptor_view() == old(self).descriptor_view(),
            final(self).current_stage() == 0,
            match result {
                Err(report) => {
                    &&& final(self).report_view() == report@
                    &&& final(self).stage_count() == 0
                    &&& final(self).stages_view() == Seq::<Stage>::empty()
                    &&& final(self).phase() == JobPhase::AwaitFinalCleanup
                    &&& action == JobAction::Cleanup
                },
                Ok((report, job)) => {
                    &&& final(self).report_view() == report@
                    &&& final(self).stage_count() == job.stages@.len()
                    &&& final(self).stages_view() == job.stages@
                    &&& job.stages@.len() == 0 ==> {
                        &&& final(self).phase() == JobPhase::AwaitFinalCleanup
                        &&& action == JobAction::Cleanup
                    }
                    &&& job.stages@.len() > 0 ==> {
                        &&& final(self).phase() == JobPhase::AwaitStage
                        &&& action == JobAction::ExecuteStage(0)
                    }
                },
            },
    {
        self.current = 0;
        match result {
            Err(report) => {
                self.report = report;
                self.stages = Vec::new();
                self.phase = JobPhase::AwaitFinalCleanup;
                JobAction::Cleanup
            },
            Ok((report, job)) => {
                self.report = report;
                self.stages = job.stages;
                if self.stages.len() == 0 {
                    self.phase = JobPhase::AwaitFinalCleanup;
                    JobAction::Cleanup
                } else {
                    self.phase = JobPhase::AwaitStage;
                    JobAction::ExecuteStage(0)
                }
            },
        }
    }

    /// The running stage finished. Its status becomes the status of the
    /// execution and its output is appended; a failure, or the end of the
    /// stages, ends the execution.
    pub fn on_stage_report(&mut self, stage_report: Report) -> (action: JobAction)
        requires
            old(self).wf(),
            old(self).phase() == JobPhase::AwaitStage,
        ensures
            final(self).wf(),
            final(self).descriptor_view() == old(self).descriptor_view(),
            final(self).stage_count() == old(self).stage_count(),
            final(self).stages_view() == old(self).stages_view(),
            final(self).report_view() == accumulate_one(old(self).report_view(), stage_report@),
            (stage_report.status != ExecutionStatus::Success || old(self).current_stage() + 1
                == old(self).stage_count()) ==> {
                &&& final(self).phase() == JobPhase::AwaitFinalCleanup
                &&& final(self).current_stage() == old(self).current_stage()
                &&& action == JobAction::Cleanup
            },
            !(stage_report.status != ExecutionStatus::Success || old(self).current_stage() + 1
                == old(self).stage_count()) ==> {
                &&& final(self).phase() == JobPhase::AwaitStage
                &&& final(self).current_stage() == old(self).current_stage() + 1
                &&& action == JobAction::ExecuteStage((old(self).current_stage() + 1) as usize)
            },
    {
        assert(self.phase == JobPhase::AwaitStage);
        assert(self.current < self.stages.len());
        let next = self.current + 1;
        self.report.status = stage_report.status;
        self.report.stdout.append(stage_report.stdout.as_str());
        self.report.stderr.append(stage_report.stderr.as_str());
        if self.report.status != ExecutionStatus::Success || next == self.stages.len() {
            self.phase = JobPhase::AwaitFinalCleanup;
            JobAction::Cleanup
        } else {
            self.current = next;
            JobAction::ExecuteStage(next)
        }
    }

    /// The final report of a finished execution.
    pub fn into_report(self) -> (report: Report)
        requires
            self.phase() == JobPhase::Done,
        ensures
            report@ == self.report_view(),
    {
        self.report
    }
}

/// What the server does with a request to run a job, given the job found
/// under the requested identifier and the identifier of the execution created
/// for it (looked up only for a job that exists): the request is answered
/// with the execution's identifier, or with none when the job is unknown or
/// no execution could be created; when both exist, the job is run from its
/// source and definition path, checked out into `execution_dir`.
pub fn execute_decision(
    job: Option<JobPointer>,
    execution_id: Option<i64>,
    execution_dir: String,
) -> (d: (Option<i64>, Option<JobDescriptor>))
    ensures
        job is None ==> d.0 is None,
        job is Some ==> d.0 == execution_id,
        d.1 is Some <==> (job is Some && execution_id is Some),
        d.1 matches Some(descriptor) ==> {
            &&& descriptor.execution_dir@ == execution_dir@
            &&& descriptor.source@ == job->Some_0.source@
            &&& descriptor.path@ == job->Some_0.path@
        },
{
    match job {
        None => (None, None),
        Some(job) => match execution_id {
            None => (None, None),
            Some(id) => (
                Some(id),
                Some(JobDescriptor { execution_dir, source: job.source, path: job.path }),
            ),
        },
    }
}

/// The report after one more stage: the stage's status, and the outputs
/// appended.
pub open spec fn accumulate_one(acc: ReportView, stage: ReportView) -> ReportView {
    ReportView {
        status: stage.status,
        stdout: acc.stdout + stage.stdout,
        stderr: acc.stderr + stage.stderr,
    }
}

/// The report after the given stages, in order.
pub open spec fn accumulate(base: ReportView, stages: Seq<ReportView>) -> ReportView
    decreases stages.len(),
{
    if stages.len() == 0 {
        base
    } else {
        accumulate_one(accumulate(base, stages.drop_last()), stages.last())
    }
}

/// Index of the first of the first `n` stage reports that is not a success,
/// or `n` when they all are.
pub open spec fn first_failure(reports: Seq<ReportView>, n: nat) -> nat
    decreases n,
{
    if n == 0 {
        0
    } else {
        let f = first_failure(reports, (n - 1) as nat);
        if f < n - 1 {
            f
        } else if reports[n - 1].status != ExecutionStatus::Success {
            (n - 1) as nat
        } else {
            n
        }
    }
}

/// How many of `n` stages run when the i-th stage run reports `reports[i]`:
/// every stage up to and including the first failing one.
pub open spec fn stages_run(reports: Seq<ReportView>, n: nat) -> nat {
    if first_failure(reports, n) < n {
        first_failure(reports, n) + 1
    } else {
        n
    }
}

/// The actions a job execution performs, in order, given whether the checkout
/// succeeded, how many stages the job has, and what each stage reports.
pub open spec fn job_calls(checkout_ok: bool, n: nat, reports: Seq<ReportView>) -> Seq<JobAction> {
    let k: nat = if checkout_ok { stages_run(reports, n) } else { 0 };
    seq![JobAction::Cleanup, JobAction::Checkout] + Seq::new(
        k,
        |i: int| JobAction::ExecuteStage(i as usize),
    ) + seq![JobAction::Cleanup]
}

/// The final report of a job execution.
pub open spec fn job_report(
    checkout_report: ReportView,
    checkout_ok: bool,
    n: nat,
    reports: Seq<ReportView>,
) -> ReportView {
    if checkout_ok {
        accumulate(checkout_report, reports.take(stages_run(reports, n) as int))
    } else {
        checkout_report
    }
}

/// The views of the given reports.
pub open spec fn report_views(reports: Seq<Report>) -> Seq<ReportView> {
    reports.map_values(|r: Report| r@)
}

/// Whether the checkout succeeded, its report, and the number of stages.
pub open spec fn checkout_view(result: CheckoutResult) -> (bool, ReportView, nat) {
    match result {
        Ok((report, job)) => (true, report@, job.stages@.len()),
        Err(report) => (false, report@, 0),
    }
}

/// Past the first failure, more reports do not change it.
pub proof fn lemma_first_failure_stable(reports: Seq<ReportView>, m: nat, n: nat)
    requires
        m <= n,
        first_failure(reports, m) < m,
    ensures
        first_failure(reports, n) == first_failure(reports, m),
    decreases n - m,
{
    if n > m {
        lemma_first_failure_stable(reports, m, (n - 1) as nat);
    }
}

/// Every execution starts with a cleanup followed by the checkout, and ends
/// with a cleanup; no other cleanup happens in between.
pub proof fn law_cleanup_first_and_last(checkout_ok: bool, n: nat, reports: Seq<ReportView>)
    ensures
        job_calls(checkout_ok, n, reports).len() >= 3,
        job_calls(checkout_ok, n, reports)[0] == JobAction::Cleanup,
        job_calls(checkout_ok, n, reports)[1] == JobAction::Checkout,
        job_calls(checkout_ok, n, reports).last() == JobAction::Cleanup,
        forall|i: int|
            1 <= i < job_calls(checkout_ok, n, reports).len() - 1 ==> #[trigger] job_calls(
                checkout_ok,
                n,
                reports,
            )[i] != JobAction::Cleanup,
{
    let calls = job_calls(checkout_ok, n, reports);
    let k: nat = if checkout_ok { stages_run(reports, n) } else { 0 };
    assert(calls.len() == k + 3);
    assert forall|i: int| 1 <= i < calls.len() - 1 implies calls[i] != JobAction::Cleanup by {
        if i >= 2 {
            assert(calls[i] == JobAction::ExecuteStage((i - 2) as usize));
        }
    }
}

/// When the checkout fails, no stage runs and the report of the execution is
/// the report of the checkout.
pub proof fn law_failed_checkout(checkout_report: ReportView, n: nat, reports: Seq<ReportView>)
    ensures
        job_calls(false, n, reports) == seq![
            JobAction::Cleanup,
            JobAction::Checkout,
            JobAction::Cleanup,
        ],
        job_report(checkout_report, false, n, reports) == checkout_report,
{
    assert(job_calls(false, n, reports) =~= seq![
        JobAction::Cleanup,
        JobAction::Checkout,
        JobAction::Cleanup,
    ]);
}

/// The reports before the first failure are successes, and the first failure,
/// when there is one, is not.
pub proof fn lemma_first_failure_meaning(reports: Seq<ReportView>, n: nat)
    requires
        n <= reports.len(),
    ensures
        first_failure(reports, n) <= n,
        forall|i: int|
            0 <= i < first_failure(reports, n) ==> #[trigger] reports[i].status
                == ExecutionStatus::Success,
        first_failure(reports, n) < n ==> reports[first_failure(reports, n) as int].status
            != ExecutionStatus::Success,
    decreases n,
{
    if n > 0 {
        lemma_first_failure_meaning(reports, (n - 1) as nat);
    }
}

/// After a successful checkout the stages run in order, starting with the
/// first; every stage that runs before the last one succeeded, and stages are
/// left out only after a stage that failed.
pub proof fn law_stages_run_in_order_until_failure(n: nat, reports: Seq<ReportView>)
    requires
        n <= reports.len(),
    ensures
        stages_run(reports, n) <= n,
        job_calls(true, n, reports).len() == stages_run(reports, n) + 3,
        forall|i: int|
            0 <= i < stages_run(reports, n) ==> #[trigger] job_calls(true, n, reports)[i + 2]
                == JobAction::ExecuteStage(i as usize),
        forall|i: int|
            0 <= i < stages_run(reports, n) - 1 ==> #[trigger] reports[i].status
                == ExecutionStatus::Success,
        stages_run(reports, n) < n ==> stages_run(reports, n) > 0 && reports[stages_run(
            reports,
            n,
        ) - 1].status != ExecutionStatus::Success,
{
    lemma_first_failure_meaning(reports, n);
    let k = stages_run(reports, n);
    let calls = job_calls(true, n, reports);
    assert forall|i: int| 0 <= i < k implies #[trigger] calls[i + 2] == JobAction::ExecuteStage(
        i as usize,
    ) by {
        assert(calls[i + 2] == Seq::new(k, |j: int| JobAction::ExecuteStage(j as usize))[i]);
    }
}

/// The status of an execution is the status of the last stage that ran, or
/// the status of the checkout when no stage ran.
pub proof fn law_status_of_last_stage(base: ReportView, n: nat, reports: Seq<ReportView>)
    requires
        n <= reports.len(),
    ensures
        stages_run(reports, n) > 0 ==> job_report(base, true, n, reports).status == reports[stages_run(
            reports,
            n,
        ) - 1].status,
        stages_run(reports, n) == 0 ==> job_report(base, true, n, reports) == base,
{
    lemma_first_failure_meaning(reports, n);
    let k = stages_run(reports, n);
    if k > 0 {
        assert(reports.take(k as int).last() == reports[k - 1]);
    } else {
        assert(reports.take(0) =~= Seq::<ReportView>::empty());
    }
}

/// The standard output after some stages is the checkout's output followed by
/// the outputs of the stages, in order; likewise for the error output.
pub proof fn lemma_accumulate_concatenates(base: ReportView, stages: Seq<ReportView>)
    ensures
        accumulate(base, stages).stdout == base.stdout + stages.map_values(
            |r: ReportView| r.stdout,
        ).flatten_alt(),
        accumulate(base, stages).stderr == base.stderr + stages.map_values(
            |r: ReportView| r.stderr,
        ).flatten_alt(),
    decreases stages.len(),
{
    if stages.len() > 0 {
        lemma_accumulate_concatenates(base, stages.drop_last());
        assert(stages.map_values(|r: ReportView| r.stdout).drop_last() =~= stages.drop_last().map_values(
            |r: ReportView| r.stdout,
        ));
        assert(stages.map_values(|r: ReportView| r.stderr).drop_last() =~= stages.drop_last().map_values(
            |r: ReportView| r.stderr,
        ));
    }
    assert(accumulate(base, stages).stdout =~= base.stdout + stages.map_values(
        |r: ReportView| r.stdout,
    ).flatten_alt());
    assert(accumulate(base, stages).stderr =~= base.stderr + stages.map_values(
        |r: ReportView| r.stderr,
    ).flatten_alt());
}

/// The outputs of an execution are the checkout's outputs followed by the
/// outputs of the stages that ran, in order.
pub proof fn law_outputs_concatenate(base: ReportView, n: nat, reports: Seq<ReportView>)
    requires
        n <= reports.len(),
    ensures
        job_report(base, true, n, reports).stdout == base.stdout + reports.take(
            stages_run(reports, n) as int,
        ).map_values(|r: ReportView| r.stdout).flatten(),
        job_report(base, true, n, reports).stderr == base.stderr + reports.take(
            stages_run(reports, n) as int,
        ).map_values(|r: ReportView| r.stderr).flatten(),
{
    lemma_first_failure_meaning(reports, n);
    let ran = reports.take(stages_run(reports, n) as int);
    lemma_accumulate_concatenates(base, ran);
    ran.map_values(|r: ReportView| r.stdout).lemma_flatten_and_flatten_alt_are_equivalent();
    ran.map_values(|r: ReportView| r.stderr).lemma_flatten_and_flatten_alt_are_equivalent();
}

impl JobDescriptor {
    /// Starts the execution of this job: the first action is a cleanup of the
    /// checkout directory.
    pub fn start(self) -> (started: (JobExecution, JobAction))
        ensures
            started.0.wf(),
            started.0.phase() == JobPhase::AwaitInitialCleanup,
            started.0.descriptor_view() == (
                self.execution_dir@,
                self.source@,
                self.path@,
            ),
            started.1 == JobAction::Cleanup,
    {
        let execution = JobExecution {
            descriptor: self,
            phase: JobPhase::AwaitInitialCleanup,
            report: Report {
                status: ExecutionStatus::Success,
                stdout: String::new(),
                stderr: String::new(),
            },
            stages: Vec::new(),
            current: 0,
        };
        (execution, JobAction::Cleanup)
    }

    /// Runs the job against a job system whose checkout gives `checkout` and
    /// whose i-th stage run reports `stage_reports[i]`; returns the actions
    /// performed, in order, and the final report.
    pub fn execute_job_inner(self, checkout: CheckoutResult, stage_reports: &Vec<Report>) -> (out: (
        Vec<JobAction>,
        Report,
    ))
        requires
            checkout_view(checkout).2 <= stage_reports@.len(),
        ensures
            out.0@ == job_calls(
                checkout_view(checkout).0,
                checkout_view(checkout).2,
                report_views(stage_reports@),
            ),
            out.1@ == job_report(
                checkout_view(checkout).1,
                checkout_view(checkout).0,
                checkout_view(checkout).2,
                report_views(stage_reports@),
            ),
    {
        let ghost ok = checkout_view(checkout).0;
        let ghost base = checkout_view(checkout).1;
        let ghost n = checkout_view(checkout).2;
        let ghost reports = report_views(stage_reports@);
        let (mut execution, first) = self.start();
        let mut calls: Vec<JobAction> = Vec::new();
        calls.push(first);
        let second = execution.on_cleaned_up();
        calls.push(second);
        let mut action = execution.on_checkout(checkout);
        let mut i: usize = 0;
        assert(reports.take(0) =~= Seq::<ReportView>::empty());
        if action != JobAction::Cleanup {
            loop
                invariant_except_break
                    i == execution.current_stage(),
                    i < n,
                    execution.phase() == JobPhase::AwaitStage,
                    action == JobAction::ExecuteStage(i),
                    first_failure(reports, i as nat) == i,
                    execution.report_view() == accumulate(base, reports.take(i as int)),
                    calls@ == seq![JobAction::Cleanup, JobAction::Checkout] + Seq::new(
                        i as nat,
                        |j: int| JobAction::ExecuteStage(j as usize),
                    ),
                invariant
                    execution.wf(),
                    ok,
                    n == execution.stage_count(),
                    n <= stage_reports@.len(),
                    reports == report_views(stage_reports@),
                ensures
                    execution.wf(),
                    execution.phase() == JobPhase::AwaitFinalCleanup,
                    action == JobAction::Cleanup,
                    calls@ == job_calls(ok, n, reports).drop_last(),
                    execution.report_view() == job_report(base, ok, n, reports),
                decreases n - i,
            {
                calls.push(action);
                let stage_report = stage_reports[i].duplicate();
                action = execution.on_stage_report(stage_report);
                proof {
                    assert(reports[i as int] == stage_report@);
                    assert(reports.take(i + 1).drop_last() =~= reports.take(i as int));
                    assert(calls@ =~= seq![JobAction::Cleanup, JobAction::Checkout] + Seq::new(
                        (i + 1) as nat,
                        |j: int| JobAction::ExecuteStage(j as usize),
                    ));
                }
                if action == JobAction::Cleanup {
                    proof {
                        if stage_report.status != ExecutionStatus::Success {
                            assert(first_failure(reports, (i + 1) as nat) == i);
                            lemma_first_failure_stable(reports, (i + 1) as nat, n);
                            assert(stages_run(reports, n) == i + 1);
                        } else {
                            assert(i + 1 == n);
                            assert(first_failure(reports, n) == n);
                            assert(stages_run(reports, n) == n);
                        }
                        assert(job_calls(ok, n, reports).drop_last() =~= calls@);
                    }
                    break;
                }
                i = i + 1;
            }
        }
        proof {
            if !ok {
                assert(calls@ =~= job_calls(ok, n, reports).drop_last());
            } else if n == 0 {
                assert(stages_run(reports, n) == 0);
                assert(calls@ =~= job_calls(ok, n, reports).drop_last());
                assert(reports.take(0) =~= Seq::<ReportView>::empty());
            }
        }
        calls.push(action);
        let last = execution.on_cleaned_up();
        assert(last == JobAction::Finish);
        assert(calls@ =~= job_calls(ok, n, reports));
        (calls, execution.into_report())
    }
}

} // verus!
