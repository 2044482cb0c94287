//! A storage that keeps jobs, executions and schedules in memory.
//!
//! Identifiers are handed out from zero upwards and nothing is ever removed,
//! so the identifiers in use are exactly those below the next one, and the
//! contents are described as sequences indexed by identifier.
use std::collections::BTreeMap;
use vstd::prelude::*;
use crate::clock::{format_timestamp, formatted_timestamp, timestamp_limit, ClockLog};
use crate::model::{
    ExecutionDetails,
    ExecutionStatus,
    ExecutionSummary,
    JobOverview,
    JobPointer,
    LastExecution,
    Schedule,
    ScheduleRequest,
};
use crate::server::persistance::StorageError;

verus! {

/// A stored job.
pub struct JobEntry {
    pub name: Seq<char>,
    pub source: Seq<char>,
    pub path: Seq<char>,
}

/// A stored execution.
pub struct ExecutionEntry {
    pub job_id: i64,
    pub start_time: u64,
    pub status: Option<ExecutionStatus>,
    pub stdout: Option<Seq<char>>,
    pub stderr: Option<Seq<char>>,
}

/// The contents of a store: the record with identifier `i` of each kind is
/// at position `i`.
pub struct StoreView {
    pub jobs: Seq<JobEntry>,
    pub executions: Seq<ExecutionEntry>,
    pub schedules: Seq<Schedule>,
}

/// The view of an optional string.
pub open spec fn opt_view(o: Option<String>) -> Option<Seq<char>> {
    match o {
        Some(s) => Some(s@),
        None => None,
    }
}

/// The stored form of a job.
pub open spec fn job_entry(job: JobPointer) -> JobEntry {
    JobEntry { name: job.name@, source: job.source@, path: job.path@ }
}

impl StoreView {
    /// The job with this identifier, if there is one.
    pub open spec fn job(self, id: int) -> Option<JobEntry> {
        if 0 <= id < self.jobs.len() {
            Some(self.jobs[id])
        } else {
            None
        }
    }

    /// The execution with this identifier, if there is one.
    pub open spec fn execution(self, id: int) -> Option<ExecutionEntry> {
        if 0 <= id < self.executions.len() {
            Some(self.executions[id])
        } else {
            None
        }
    }

    /// The store after a job is added.
    pub open spec fn add_job(self, job: JobEntry) -> StoreView {
        StoreView { jobs: self.jobs.push(job), ..self }
    }

    /// The store after an execution of a job is added: it has no status and
    /// no output yet.
    pub open spec fn add_execution(self, job_id: i64, start_time: u64) -> StoreView {
        StoreView {
            executions: self.executions.push(
                ExecutionEntry { job_id, start_time, status: None, stdout: None, stderr: None },
            ),
            ..self
        }
    }

    /// The store after the status of an existing execution is set.
    pub open spec fn with_status(self, id: int, status: ExecutionStatus) -> StoreView {
        StoreView {
            executions: self.executions.update(
                id,
                ExecutionEntry { status: Some(status), ..self.executions[id] },
            ),
            ..self
        }
    }

    /// The store after the outcome of an existing execution is set.
    pub open spec fn with_result(
        self,
        id: int,
        stdout: Seq<char>,
        stderr: Seq<char>,
        status: ExecutionStatus,
    ) -> StoreView {
        StoreView {
            executions: self.executions.update(
                id,
                ExecutionEntry {
                    status: Some(status),
                    stdout: Some(stdout),
                    stderr: Some(stderr),
                    ..self.executions[id]
                },
            ),
            ..self
        }
    }

    /// The store after a daily schedule is added.
    pub open spec fn add_schedule(self, job_id: i64, hour: u8, minute: u8) -> StoreView {
        StoreView {
            schedules: self.schedules.push(
                Schedule { schedule_id: self.schedules.len() as i64, job_id, hour, minute },
            ),
            ..self
        }
    }

    /// Whether execution `a` is more recent than execution `b`: it started
    /// later, or at the same time with a larger identifier.
    pub open spec fn more_recent(self, a: int, b: int) -> bool {
        ||| self.executions[a].start_time > self.executions[b].start_time
        ||| (self.executions[a].start_time == self.executions[b].start_time && a > b)
    }

    /// The most recent among the first `n` executions of a job.
    pub open spec fn latest_among(self, job_id: i64, n: nat) -> Option<int>
        decreases n,
    {
        if n == 0 {
            None
        } else {
            let prev = self.latest_among(job_id, (n - 1) as nat);
            if self.executions[n - 1].job_id != job_id {
                prev
            } else {
                match prev {
                    None => Some(n - 1),
                    Some(p) => if self.executions[n - 1].start_time >= self.executions[p].start_time {
                        Some(n - 1)
                    } else {
                        Some(p)
                    },
                }
            }
        }
    }

    /// The identifiers of the first `n` executions of a job, in increasing
    /// order.
    pub open spec fn executions_of(self, job_id: i64, n: nat) -> Seq<int>
        decreases n,
    {
        if n == 0 {
            Seq::empty()
        } else {
            let prev = self.executions_of(job_id, (n - 1) as nat);
            if self.executions[n - 1].job_id == job_id {
                prev.push(n - 1)
            } else {
                prev
            }
        }
    }

    /// Where an execution goes among executions ordered from the latest
    /// start time to the earliest: after every one that started no earlier.
    pub open spec fn insertion_point(self, sorted: Seq<int>, id: int) -> nat
        decreases sorted.len(),
    {
        if sorted.len() == 0 {
            0
        } else if self.executions[sorted[0]].start_time >= self.executions[id].start_time {
            1 + self.insertion_point(sorted.drop_first(), id)
        } else {
            0
        }
    }

    /// Executions ordered from the latest start time to the earliest; those
    /// that started at the same time keep their order.
    pub open spec fn by_start_desc(self, ids: Seq<int>) -> Seq<int>
        decreases ids.len(),
    {
        if ids.len() == 0 {
            Seq::empty()
        } else {
            let sorted = self.by_start_desc(ids.drop_last());
            sorted.insert(self.insertion_point(sorted, ids.last()) as int, ids.last())
        }
    }

    /// The executions of a job from the latest start time to the earliest,
    /// at most `limit` of them.
    pub open spec fn recent_executions(self, job_id: i64, limit: nat) -> Seq<int> {
        let sorted = self.by_start_desc(self.executions_of(job_id, self.executions.len()));
        sorted.take(if limit < sorted.len() { limit as int } else { sorted.len() as int })
    }

    /// The most recent execution of a job, if it ran.
    pub open spec fn latest_execution(self, job_id: i64) -> Option<int> {
        self.latest_among(job_id, self.executions.len())
    }

    /// Whether an execution started at a time `chrono` can write as a date.
    pub open spec fn date_writable(self, e: int) -> bool {
        self.executions[e].start_time < timestamp_limit()
    }

    /// Whether the details of an execution can be written: there is no such
    /// execution or job, or its start time is a date `chrono` can write.
    pub open spec fn details_writable(self, id: int) -> bool {
        self.execution(id) matches Some(e) && self.job(e.job_id as int) is Some ==> self.date_writable(
            id,
        )
    }

    /// Whether the listing of jobs can be written: the start time of each
    /// job's most recent execution is a date `chrono` can write.
    pub open spec fn listing_writable(self) -> bool {
        forall|i: int|
            0 <= i < self.jobs.len() ==> match #[trigger] self.latest_execution(i as i64) {
                Some(e) => self.date_writable(e),
                None => true,
            }
    }
}

struct StoredExecution {
    id: i64,
    job_id: i64,
    start_time: u64,
    status: Option<ExecutionStatus>,
    stdout: Option<String>,
    stderr: Option<String>,
}

impl StoredExecution {
    spec fn entry(self) -> ExecutionEntry {
        ExecutionEntry {
            job_id: self.job_id,
            start_time: self.start_time,
            status: self.status,
            stdout: opt_view(self.stdout),
            stderr: opt_view(self.stderr),
        }
    }
}

fn copy_text(text: &Option<String>) -> (copy: Option<String>)
    ensures
        opt_view(copy) == opt_view(*text),
{
    match text {
        Some(t) => Some(t.clone()),
        None => None,
    }
}

fn text_or_empty(text: &Option<String>) -> (copy: String)
    ensures
        copy@ == match opt_view(*text) {
            Some(t) => t,
            None => Seq::<char>::empty(),
        },
{
    match text {
        Some(t) => t.clone(),
        None => String::new(),
    }
}

/// A store that keeps everything in memory: each kind of record in a map from
/// identifier to record, beside the identifier the next record of that kind
/// gets.
pub struct MemoryStore {
    job_counter: i64,
    jobs: BTreeMap<i64, JobPointer>,
    execution_counter: i64,
    executions: BTreeMap<i64, StoredExecution>,
    schedule_counter: i64,
    schedules: BTreeMap<i64, Schedule>,
    clock: ClockLog,
}

impl View for MemoryStore {
    type V = StoreView;

    closed spec fn view(&self) -> StoreView {
        StoreView {
            jobs: Seq::new(self.job_counter as nat, |i: int| job_entry(self.jobs@[i as i64])),
            executions: Seq::new(
                self.execution_counter as nat,
                |i: int| self.executions@[i as i64].entry(),
            ),
            schedules: Seq::new(self.schedule_counter as nat, |i: int| self.schedules@[i as i64]),
        }
    }
}

/// The message of a user error.
pub open spec fn is_user_error<T>(result: Result<T, StorageError>, message: Seq<char>) -> bool {
    result matches Err(StorageError::UserError(m)) && m@ == message
}

impl MemoryStore {
    /// The readings of the clock the store has taken, oldest first.
    pub closed spec fn clock_readings(&self) -> Seq<Option<(u64, u32)>> {
        self.clock.readings()
    }

    /// Well-formedness: the identifiers in use are those below the next one,
    /// and each record carries its own identifier.
    pub closed spec fn wf(&self) -> bool {
        &&& 0 <= self.job_counter
        &&& 0 <= self.execution_counter
        &&& 0 <= self.schedule_counter
        &&& forall|id: i64| #[trigger]
            self.jobs@.contains_key(id) <==> 0 <= id < self.job_counter
        &&& forall|id: i64| #[trigger]
            self.jobs@.contains_key(id) ==> self.jobs@[id].id == id
        &&& forall|id: i64| #[trigger]
            self.executions@.contains_key(id) <==> 0 <= id < self.execution_counter
        &&& forall|id: i64| #[trigger]
            self.executions@.contains_key(id) ==> self.executions@[id].id == id
        &&& forall|id: i64| #[trigger]
            self.schedules@.contains_key(id) <==> 0 <= id < self.schedule_counter
        &&& forall|id: i64| #[trigger]
            self.schedules@.contains_key(id) ==> self.schedules@[id].schedule_id == id
    }

    proof fn lemma_view(&self)
        requires
            self.wf(),
        ensures
            self@.jobs.len() == self.job_counter,
            self@.executions.len() == self.execution_counter,
            self@.schedules.len() == self.schedule_counter,
            forall|i: int|
                0 <= i < self@.jobs.len() ==> #[trigger] self@.jobs[i] == job_entry(
                    self.jobs@[i as i64],
                ),
            forall|i: int|
                0 <= i < self@.executions.len() ==> #[trigger] self@.executions[i]
                    == self.executions@[i as i64].entry(),
            forall|i: int|
                0 <= i < self@.schedules.len() ==> #[trigger] self@.schedules[i]
                    == self.schedules@[i as i64],
    {
    }

    /// The stored job with this identifier.
    fn job_at(&self, id: i64) -> (job: &JobPointer)
        requires
            self.wf(),
            0 <= id < self@.jobs.len(),
        ensures
            job.id == id,
            self@.jobs[id as int] == job_entry(*job),
    {
        proof {
            self.lemma_view();
        }
        match self.jobs.get(&id) {
            Some(job) => job,
            None => vstd::pervasive::unreached(),
        }
    }

    /// The stored execution with this identifier.
    fn execution_at(&self, id: i64) -> (execution: &StoredExecution)
        requires
            self.wf(),
            0 <= id < self@.executions.len(),
        ensures
            execution.id == id,
            self@.executions[id as int] == execution.entry(),
    {
        proof {
            self.lemma_view();
        }
        match self.executions.get(&id) {
            Some(execution) => execution,
            None => vstd::pervasive::unreached(),
        }
    }

    /// The stored schedule with this identifier.
    fn schedule_at(&self, id: i64) -> (schedule: Schedule)
        requires
            self.wf(),
            0 <= id < self@.schedules.len(),
        ensures
            self@.schedules[id as int] == schedule,
    {
        proof {
            self.lemma_view();
        }
        match self.schedules.get(&id) {
            Some(schedule) => *schedule,
            None => vstd::pervasive::unreached(),
        }
    }

    /// The number of stored jobs.
    pub fn job_count(&self) -> (n: i64)
        requires
            self.wf(),
        ensures
            n == self@.jobs.len(),
    {
        proof {
            self.lemma_view();
        }
        self.job_counter
    }

    /// The number of stored executions.
    pub fn execution_count(&self) -> (n: i64)
        requires
            self.wf(),
        ensures
            n == self@.executions.len(),
    {
        proof {
            self.lemma_view();
        }
        self.execution_counter
    }

    /// The number of stored schedules.
    pub fn schedule_count(&self) -> (n: i64)
        requires
            self.wf(),
        ensures
            n == self@.schedules.len(),
    {
        proof {
            self.lemma_view();
        }
        self.schedule_counter
    }

    /// An empty store.
    pub fn new() -> (store: MemoryStore)
        ensures
            store.wf(),
            store@.jobs.len() == 0,
            store@.executions.len() == 0,
            store@.schedules.len() == 0,
    {
        MemoryStore {
            job_counter: 0,
            jobs: BTreeMap::new(),
            execution_counter: 0,
            executions: BTreeMap::new(),
            schedule_counter: 0,
            schedules: BTreeMap::new(),
            clock: ClockLog::new(),
        }
    }

    /// The identifiers of all jobs, in increasing order.
    pub fn list_jobs(&self) -> (ids: Result<Vec<i64>, StorageError>)
        requires
            self.wf(),
        ensures
            ids is Ok,
            ids->Ok_0@ == Seq::new(self@.jobs.len(), |i: int| i as i64),
    {
        proof {
            self.lemma_view();
        }
        let mut ids: Vec<i64> = Vec::new();
        let mut i: i64 = 0;
        while i < self.job_counter
            invariant
                0 <= i <= self.job_counter,
                ids@ == Seq::new(i as nat, |k: int| k as i64),
            decreases self.job_counter - i,
        {
            ids.push(i);
            i = i + 1;
            assert(ids@ =~= Seq::new(i as nat, |k: int| k as i64));
        }
        Ok(ids)
    }

    /// Stores a job under the next identifier.
    pub fn store_job(&mut self, name: String, source: String, path: String) -> (id: Result<
        i64,
        StorageError,
    >)
        requires
            old(self).wf(),
            old(self)@.jobs.len() < i64::MAX,
        ensures
            final(self).wf(),
            id == Ok::<i64, StorageError>(old(self)@.jobs.len() as i64),
            final(self)@ == old(self)@.add_job(JobEntry { name: name@, source: source@, path: path@ }),
    {
        proof {
            self.lemma_view();
        }
        let id = self.job_counter;
        let job = JobPointer { id, name, source, path };
        let ghost entry = job_entry(job);
        self.jobs.insert(id, job);
        self.job_counter = id + 1;
        proof {
            assert forall|k: i64| #[trigger]
                self.jobs@.contains_key(k) <==> 0 <= k < self.job_counter by {
                if k != id {
                    assert(self.jobs@.contains_key(k) == old(self).jobs@.contains_key(k));
                }
            }
            assert(self@.jobs =~= old(self)@.jobs.push(entry));
        }
        Ok(id)
    }

    /// The job with this identifier.
    pub fn fetch_job(&self, id: i64) -> (job: Result<JobPointer, StorageError>)
        requires
            self.wf(),
        ensures
            self@.job(id as int) matches Some(entry) ==> (job is Ok && job->Ok_0.id == id
                && job_entry(job->Ok_0) == entry),
            self@.job(id as int) is None ==> is_user_error(job, "Invalid job id"@),
    {
        proof {
            self.lemma_view();
        }
        match self.jobs.get(&id) {
            Some(stored) => Ok(
                JobPointer {
                    id: stored.id,
                    name: stored.name.clone(),
                    source: stored.source.clone(),
                    path: stored.path.clone(),
                },
            ),
            None => Err(StorageError::UserError("Invalid job id".to_owned())),
        }
    }

    /// Stores a new execution of a job, started at `start_time`, under the
    /// next identifier.
    pub fn create_execution_at(&mut self, job_id: i64, start_time: u64) -> (id: Result<
        i64,
        StorageError,
    >)
        requires
            old(self).wf(),
            old(self)@.executions.len() < i64::MAX,
        ensures
            final(self).wf(),
            id == Ok::<i64, StorageError>(old(self)@.executions.len() as i64),
            final(self)@ == old(self)@.add_execution(job_id, start_time),
            final(self).clock_readings() == old(self).clock_readings(),
    {
        proof {
            self.lemma_view();
        }
        let id = self.execution_counter;
        let execution = StoredExecution {
            id,
            job_id,
            start_time,
            status: None,
            stdout: None,
            stderr: None,
        };
        let ghost entry = execution.entry();
        self.executions.insert(id, execution);
        self.execution_counter = id + 1;
        proof {
            assert forall|k: i64| #[trigger]
                self.executions@.contains_key(k) <==> 0 <= k < self.execution_counter by {
                if k != id {
                    assert(self.executions@.contains_key(k) == old(self).executions@.contains_key(
                        k,
                    ));
                }
            }
            assert(self@.executions =~= old(self)@.executions.push(entry));
        }
        Ok(id)
    }

    /// Stores a new execution of a job, started at the time `reading` of the
    /// clock (seconds and nanoseconds since the epoch). A clock set before the
    /// epoch, read as `None`, is an internal error, and nothing changes.
    pub fn create_execution_from(&mut self, job_id: i64, reading: Option<(u64, u32)>) -> (id: Result<
        i64,
        StorageError,
    >)
        requires
            old(self).wf(),
            old(self)@.executions.len() < i64::MAX,
        ensures
            final(self).wf(),
            final(self).clock_readings() == old(self).clock_readings(),
            reading matches Some(now) ==> {
                &&& id == Ok::<i64, StorageError>(old(self)@.executions.len() as i64)
                &&& final(self)@ == old(self)@.add_execution(job_id, now.0)
            },
            reading is None ==> {
                &&& id matches Err(StorageError::InternalError(m)) && m@ == "Clock before epoch"@
                &&& final(self)@ == old(self)@
            },
    {
        match reading {
            Some((secs, _)) => self.create_execution_at(job_id, secs),
            None => Err(StorageError::InternalError("Clock before epoch".to_owned())),
        }
    }

    /// Stores a new execution of a job, started now. It fails, and changes
    /// nothing, when the clock is set before the epoch.
    pub fn create_execution(&mut self, job_id: i64) -> (id: Result<i64, StorageError>)
        requires
            old(self).wf(),
            old(self)@.executions.len() < i64::MAX,
        ensures
            final(self).wf(),
            id is Ok ==> id->Ok_0 == old(self)@.executions.len() && exists|t: u64|
                final(self)@ == old(self)@.add_execution(job_id, t),
            id is Err ==> id->Err_0 is InternalError && final(self)@ == old(self)@,
            final(self).clock_readings().len() == old(self).clock_readings().len() + 1,
            final(self).clock_readings().drop_last() == old(self).clock_readings(),
            match final(self).clock_readings().last() {
                Some(now) => {
                    &&& id == Ok::<i64, StorageError>(old(self)@.executions.len() as i64)
                    &&& final(self)@ == old(self)@.add_execution(job_id, now.0)
                },
                None => {
                    &&& id matches Err(StorageError::InternalError(m)) && m@ == "Clock before epoch"@
                    &&& final(self)@ == old(self)@
                },
            },
    {
        let reading = self.clock.read();
        self.create_execution_from(job_id, reading)
    }

    /// Sets the status of an execution.
    pub fn set_execution_status(&mut self, id: i64, execution_status: ExecutionStatus) -> (result:
        Result<(), StorageError>)
        requires
            old(self).wf(),
        ensures
            final(self).wf(),
            old(self)@.execution(id as int) is Some ==> (result is Ok && final(self)@ == old(
                self,
            )@.with_status(id as int, execution_status)),
            old(self)@.execution(id as int) is None ==> (is_user_error(
                result,
                "Invalid excution id"@,
            ) && final(self)@ == old(self)@),
    {
        proof {
            self.lemma_view();
        }
        match self.executions.remove(&id) {
            Some(stored) => {
                let mut stored = stored;
                stored.status = Some(execution_status);
                self.executions.insert(id, stored);
                proof {
                    assert(self.executions@ =~= old(self).executions@.insert(id, stored));
                    self.lemma_view();
                    assert(self@.executions =~= old(self)@.with_status(
                        id as int,
                        execution_status,
                    ).executions);
                }
                Ok(())
            },
            None => {
                assert(self.executions@ =~= old(self).executions@);
                Err(StorageError::UserError("Invalid excution id".to_owned()))
            },
        }
    }

    /// Sets the status and the outputs of an execution.
    pub fn set_execution_result(
        &mut self,
        id: i64,
        stdout: String,
        stderr: String,
        execution_status: ExecutionStatus,
    ) -> (result: Result<(), StorageError>)
        requires
            old(self).wf(),
        ensures
            final(self).wf(),
            old(self)@.execution(id as int) is Some ==> (result is Ok && final(self)@ == old(
                self,
            )@.with_result(id as int, stdout@, stderr@, execution_status)),
            old(self)@.execution(id as int) is None ==> (is_user_error(
                result,
                "Invalid excution id"@,
            ) && final(self)@ == old(self)@),
    {
        proof {
            self.lemma_view();
        }
        let ghost out = stdout@;
        let ghost err = stderr@;
        match self.executions.remove(&id) {
            Some(stored) => {
                let mut stored = stored;
                stored.status = Some(execution_status);
                stored.stdout = Some(stdout);
                stored.stderr = Some(stderr);
                self.executions.insert(id, stored);
                proof {
                    assert(self.executions@ =~= old(self).executions@.insert(id, stored));
                    self.lemma_view();
                    assert(self@.executions =~= old(self)@.with_result(
                        id as int,
                        out,
                        err,
                        execution_status,
                    ).executions);
                }
                Ok(())
            },
            None => {
                assert(self.executions@ =~= old(self).executions@);
                Err(StorageError::UserError("Invalid excution id".to_owned()))
            },
        }
    }

    /// The details of an execution: its job's name, its start time as text,
    /// its status and its outputs.
    pub fn get_execution(&self, id: i64) -> (details: Result<ExecutionDetails, StorageError>)
        requires
            self.wf(),
            self@.details_writable(id as int),
        ensures
            self@.execution(id as int) is None ==> is_user_error(details, "Invalid job id"@),
            self@.execution(id as int) matches Some(e) ==> {
                &&& self@.job(e.job_id as int) is None ==> is_user_error(
                    details,
                    "Invalid execution id"@,
                )
                &&& self@.job(e.job_id as int) matches Some(job) ==> {
                    &&& details is Ok
                    &&& details->Ok_0.execution_id == id
                    &&& details->Ok_0.job_name@ == job.name
                    &&& Some(details->Ok_0.start_time@) == formatted_timestamp(e.start_time)
                    &&& details->Ok_0.status == e.status
                    &&& opt_view(details->Ok_0.stdout) == e.stdout
                    &&& opt_view(details->Ok_0.stderr) == e.stderr
                }
            },
    {
        proof {
            self.lemma_view();
        }
        let execution = match self.executions.get(&id) {
            Some(execution) => execution,
            None => return Err(StorageError::UserError("Invalid job id".to_owned())),
        };
        let job = match self.jobs.get(&execution.job_id) {
            Some(job) => job,
            None => return Err(StorageError::UserError("Invalid execution id".to_owned())),
        };
        let start_time = match format_timestamp(execution.start_time) {
            Some(text) => text,
            None => {
                assert(false);
                String::new()
            },
        };
        Ok(
            ExecutionDetails {
                execution_id: execution.id,
                job_name: job.name.clone(),
                start_time,
                status: execution.status,
                stdout: copy_text(&execution.stdout),
                stderr: copy_text(&execution.stderr),
            },
        )
    }

    /// The standard output of an execution; empty until its outcome is set.
    pub fn get_stdout(&self, execution_id: i64) -> (stdout: Result<String, StorageError>)
        requires
            self.wf(),
        ensures
            self@.execution(execution_id as int) is None ==> is_user_error(
                stdout,
                "Invalid execution id"@,
            ),
            self@.execution(execution_id as int) matches Some(e) ==> (stdout is Ok
                && stdout->Ok_0@ == match e.stdout {
                Some(t) => t,
                None => Seq::<char>::empty(),
            }),
    {
        proof {
            self.lemma_view();
        }
        match self.executions.get(&execution_id) {
            Some(execution) => Ok(text_or_empty(&execution.stdout)),
            None => Err(StorageError::UserError("Invalid execution id".to_owned())),
        }
    }

    /// The error output of an execution; empty until its outcome is set.
    pub fn get_stderr(&self, execution_id: i64) -> (stderr: Result<String, StorageError>)
        requires
            self.wf(),
        ensures
            self@.execution(execution_id as int) is None ==> is_user_error(
                stderr,
                "Invalid execution id"@,
            ),
            self@.execution(execution_id as int) matches Some(e) ==> (stderr is Ok
                && stderr->Ok_0@ == match e.stderr {
                Some(t) => t,
                None => Seq::<char>::empty(),
            }),
    {
        proof {
            self.lemma_view();
        }
        match self.executions.get(&execution_id) {
            Some(execution) => Ok(text_or_empty(&execution.stderr)),
            None => Err(StorageError::UserError("Invalid execution id".to_owned())),
        }
    }

    /// The identifier of the most recent execution of a job, if it ran.
    fn latest_of(&self, job_id: i64) -> (latest: Option<i64>)
        requires
            self.wf(),
        ensures
            match latest {
                None => self@.latest_execution(job_id) is None,
                Some(e) => self@.latest_execution(job_id) == Some(e as int),
            },
            latest matches Some(e) ==> 0 <= e < self@.executions.len(),
    {
        proof {
            self.lemma_view();
        }
        let mut best: Option<i64> = None;
        let mut best_start: u64 = 0;
        let mut k: i64 = 0;
        while k < self.execution_counter
            invariant
                self.wf(),
                0 <= k <= self.execution_counter,
                self@.executions.len() == self.execution_counter,
                match best {
                    None => self@.latest_among(job_id, k as nat) is None,
                    Some(e) => self@.latest_among(job_id, k as nat) == Some(e as int)
                        && best_start == self@.executions[e as int].start_time,
                },
                best matches Some(e) ==> 0 <= e < k,
            decreases self.execution_counter - k,
        {
            let candidate = self.execution_at(k);
            if candidate.job_id == job_id {
                match best {
                    None => {
                        best = Some(k);
                        best_start = candidate.start_time;
                    },
                    Some(_) => {
                        if candidate.start_time >= best_start {
                            best = Some(k);
                            best_start = candidate.start_time;
                        }
                    },
                }
            }
            k = k + 1;
        }
        best
    }

    /// Whether the details of an execution can be written: its start time is
    /// a date `chrono` can write, if the execution and its job exist.
    pub fn can_write_details(&self, id: i64) -> (ok: bool)
        requires
            self.wf(),
        ensures
            ok == self@.details_writable(id as int),
    {
        proof {
            self.lemma_view();
        }
        match self.executions.get(&id) {
            Some(execution) => match self.jobs.get(&execution.job_id) {
                Some(_) => execution.start_time < 8_210_266_876_800,
                None => true,
            },
            None => true,
        }
    }

    /// Whether the listing of jobs can be written: the start time of each
    /// job's most recent execution is a date `chrono` can write.
    pub fn can_write_listing(&self) -> (ok: bool)
        requires
            self.wf(),
        ensures
            ok == self@.listing_writable(),
    {
        proof {
            self.lemma_view();
        }
        let mut i: i64 = 0;
        while i < self.job_counter
            invariant
                self.wf(),
                0 <= i <= self.job_counter,
                self@.jobs.len() == self.job_counter,
                forall|k: int|
                    0 <= k < i ==> match #[trigger] self@.latest_execution(k as i64) {
                        Some(e) => self@.date_writable(e),
                        None => true,
                    },
            decreases self.job_counter - i,
        {
            match self.latest_of(i) {
                Some(e) => {
                    if self.execution_at(e).start_time >= 8_210_266_876_800 {
                        assert(self@.latest_execution(i as i64) == Some(e as int));
                        return false;
                    }
                },
                None => {},
            }
            i = i + 1;
        }
        true
    }

    /// Every job with its most recent execution, in increasing order of
    /// identifier.
    pub fn list_jobs_new(&self) -> (jobs: Result<Vec<JobOverview>, StorageError>)
        requires
            self.wf(),
            self@.listing_writable(),
        ensures
            jobs is Ok,
            jobs->Ok_0@.len() == self@.jobs.len(),
            forall|i: int|
                0 <= i < self@.jobs.len() ==> {
                    let overview = #[trigger] jobs->Ok_0@[i];
                    &&& overview.id == i
                    &&& overview.name@ == self@.jobs[i].name
                    &&& match self@.latest_execution(i as i64) {
                        None => overview.last_execution is None,
                        Some(e) => overview.last_execution matches Some(last) && last.id == e
                            && Some(last.start_time@) == formatted_timestamp(
                            self@.executions[e].start_time,
                        ) && last.status == self@.executions[e].status,
                    }
                },
    {
        proof {
            self.lemma_view();
        }
        let mut overviews: Vec<JobOverview> = Vec::new();
        let mut i: i64 = 0;
        while i < self.job_counter
            invariant
                self.wf(),
                self@.listing_writable(),
                0 <= i <= self.job_counter,
                self@.jobs.len() == self.job_counter,
                overviews@.len() == i,
                forall|k: int|
                    0 <= k < i ==> {
                        let overview = #[trigger] overviews@[k];
                        &&& overview.id == k
                        &&& overview.name@ == self@.jobs[k].name
                        &&& match self@.latest_execution(k as i64) {
                            None => overview.last_execution is None,
                            Some(e) => overview.last_execution matches Some(last) && last.id == e
                                && Some(last.start_time@) == formatted_timestamp(
                                self@.executions[e].start_time,
                            ) && last.status == self@.executions[e].status,
                        }
                    },
            decreases self.job_counter - i,
        {
            let job = self.job_at(i);
            let last_execution = match self.latest_of(job.id) {
                None => None,
                Some(e) => {
                    assert(self@.latest_execution(i as i64) == Some(e as int));
                    let execution = self.execution_at(e);
                    let start_time = match format_timestamp(execution.start_time) {
                        Some(text) => text,
                        None => {
                            assert(false);
                            String::new()
                        },
                    };
                    Some(LastExecution { id: execution.id, start_time, status: execution.status })
                },
            };
            overviews.push(JobOverview { id: job.id, name: job.name.clone(), last_execution });
            i = i + 1;
        }
        Ok(overviews)
    }

    /// The executions of a job from the latest start time to the earliest
    /// (executions started at the same time in the order they were created),
    /// at most `limit` of them, with their start times as text.
    pub fn last_executions(&self, job_id: i64, limit: usize) -> (summaries: Result<
        Vec<ExecutionSummary>,
        StorageError,
    >)
        requires
            self.wf(),
            forall|i: int|
                0 <= i < self@.recent_executions(job_id, limit as nat).len() ==> self@.date_writable(
                    #[trigger] self@.recent_executions(job_id, limit as nat)[i],
                ),
        ensures
            summaries is Ok,
            summaries->Ok_0@.len() == self@.recent_executions(job_id, limit as nat).len(),
            forall|i: int|
                0 <= i < summaries->Ok_0@.len() ==> {
                    let e = self@.recent_executions(job_id, limit as nat)[i];
                    &&& (#[trigger] summaries->Ok_0@[i]).id == e
                    &&& Some(summaries->Ok_0@[i].start_time@) == formatted_timestamp(
                        self@.executions[e].start_time,
                    )
                },
    {
        proof {
            self.lemma_view();
        }
        let ghost view = self@;
        let mut sorted: Vec<i64> = Vec::new();
        let mut k: i64 = 0;
        while k < self.execution_counter
            invariant
                self.wf(),
                view == self@,
                0 <= k <= self.execution_counter,
                self@.executions.len() == self.execution_counter,
                sorted@.map_values(|x: i64| x as int) == view.by_start_desc(
                    view.executions_of(job_id, k as nat),
                ),
                forall|i: int| 0 <= i < sorted@.len() ==> 0 <= #[trigger] sorted@[i] < k,
            decreases self.execution_counter - k,
        {
            if self.execution_at(k).job_id == job_id {
                let ghost before = sorted@.map_values(|x: i64| x as int);
                let start = self.execution_at(k).start_time;
                let mut pos: usize = 0;
                assert(before.skip(0) =~= before);
                while pos < sorted.len() && self.execution_at(sorted[pos]).start_time >= start
                    invariant
                        self.wf(),
                        view == self@,
                        0 <= k < self.execution_counter,
                        self@.executions.len() == self.execution_counter,
                        start == view.executions[k as int].start_time,
                        before == sorted@.map_values(|x: i64| x as int),
                        forall|i: int| 0 <= i < sorted@.len() ==> 0 <= #[trigger] sorted@[i] < k,
                        pos <= sorted@.len(),
                        view.insertion_point(before, k as int) == pos + view.insertion_point(
                            before.skip(pos as int),
                            k as int,
                        ),
                    decreases sorted@.len() - pos,
                {
                    proof {
                        assert(before.skip(pos as int).drop_first() =~= before.skip(pos + 1));
                    }
                    pos = pos + 1;
                }
                proof {
                    assert(before.skip(0) =~= before);
                    if pos < sorted@.len() {
                        assert(before.skip(pos as int)[0] == before[pos as int]);
                    } else {
                        assert(before.skip(pos as int).len() == 0);
                    }
                    assert(view.insertion_point(before, k as int) == pos);
                }
                sorted.insert(pos, k);
                proof {
                    let ids = view.executions_of(job_id, (k + 1) as nat);
                    assert(ids.drop_last() == view.executions_of(job_id, k as nat));
                    assert(sorted@.map_values(|x: i64| x as int) =~= before.insert(
                        pos as int,
                        k as int,
                    ));
                }
            }
            k = k + 1;
        }
        let ghost order = view.by_start_desc(view.executions_of(job_id, view.executions.len()));
        let count = if limit < sorted.len() {
            limit
        } else {
            sorted.len()
        };
        let mut summaries: Vec<ExecutionSummary> = Vec::new();
        let mut i: usize = 0;
        while i < count
            invariant
                self.wf(),
                view == self@,
                self@.executions.len() == self.execution_counter,
                sorted@.map_values(|x: i64| x as int) == order,
                order == view.by_start_desc(view.executions_of(job_id, view.executions.len())),
                forall|j: int|
                    0 <= j < sorted@.len() ==> 0 <= #[trigger] sorted@[j] < self.execution_counter,
                count == (if limit < sorted@.len() {
                    limit
                } else {
                    sorted@.len() as usize
                }),
                count == view.recent_executions(job_id, limit as nat).len(),
                forall|j: int|
                    0 <= j < view.recent_executions(job_id, limit as nat).len() ==> view.date_writable(
                        #[trigger] view.recent_executions(job_id, limit as nat)[j],
                    ),
                i <= count,
                summaries@.len() == i,
                forall|j: int|
                    0 <= j < i ==> {
                        let e = view.recent_executions(job_id, limit as nat)[j];
                        &&& (#[trigger] summaries@[j]).id == e
                        &&& Some(summaries@[j].start_time@) == formatted_timestamp(
                            view.executions[e].start_time,
                        )
                    },
            decreases count - i,
        {
            let e = sorted[i];
            let execution = self.execution_at(e);
            assert(order[i as int] == e);
            assert(order.len() == sorted@.len());
            assert(view.recent_executions(job_id, limit as nat) == order.take(count as int));
            assert(view.recent_executions(job_id, limit as nat)[i as int] == e);
            let start_time = match format_timestamp(execution.start_time) {
                Some(text) => text,
                None => {
                    assert(false);
                    String::new()
                },
            };
            summaries.push(ExecutionSummary { id: execution.id, start_time });
            i = i + 1;
        }
        Ok(summaries)
    }

    /// Stores a daily schedule of a job under the next identifier.
    pub fn create_daily(&mut self, job_id: i64, request: ScheduleRequest) -> (id: Result<
        i64,
        StorageError,
    >)
        requires
            old(self).wf(),
            old(self)@.schedules.len() < i64::MAX,
        ensures
            final(self).wf(),
            id == Ok::<i64, StorageError>(old(self)@.schedules.len() as i64),
            final(self)@ == old(self)@.add_schedule(job_id, request.hour, request.minute),
    {
        proof {
            self.lemma_view();
        }
        let id = self.schedule_counter;
        let ScheduleRequest { hour, minute } = request;
        let schedule = Schedule { schedule_id: id, job_id, hour, minute };
        self.schedules.insert(id, schedule);
        self.schedule_counter = id + 1;
        proof {
            assert forall|k: i64| #[trigger]
                self.schedules@.contains_key(k) <==> 0 <= k < self.schedule_counter by {
                if k != id {
                    assert(self.schedules@.contains_key(k) == old(self).schedules@.contains_key(k));
                }
            }
            assert(self@.schedules =~= old(self)@.schedules.push(schedule));
        }
        Ok(id)
    }

    /// The schedules of a job, in the order they were created.
    pub fn get_schedules(&self, job_id: i64) -> (schedules: Result<Vec<Schedule>, StorageError>)
        requires
            self.wf(),
        ensures
            schedules is Ok,
            schedules->Ok_0@ == self@.schedules.filter(|s: Schedule| s.job_id == job_id),
    {
        proof {
            self.lemma_view();
        }
        let ghost all = self@.schedules;
        let mut found: Vec<Schedule> = Vec::new();
        let mut i: i64 = 0;
        while i < self.schedule_counter
            invariant
                self.wf(),
                all == self@.schedules,
                all.len() == self.schedule_counter,
                0 <= i <= self.schedule_counter,
                found@ == all.take(i as int).filter(|s: Schedule| s.job_id == job_id),
            decreases self.schedule_counter - i,
        {
            let schedule = self.schedule_at(i);
            proof {
                reveal_with_fuel(Seq::filter, 1);
                assert(all.take(i + 1).drop_last() =~= all.take(i as int));
            }
            if schedule.job_id == job_id {
                found.push(schedule);
            }
            i = i + 1;
        }
        assert(all.take(all.len() as int) =~= all);
        Ok(found)
    }

    /// All schedules, in the order they were created.
    pub fn get_all_schedules(&self) -> (schedules: Result<Vec<Schedule>, StorageError>)
        requires
            self.wf(),
        ensures
            schedules is Ok,
            schedules->Ok_0@ == self@.schedules,
    {
        proof {
            self.lemma_view();
        }
        let ghost all = self@.schedules;
        let mut found: Vec<Schedule> = Vec::new();
        let mut i: i64 = 0;
        while i < self.schedule_counter
            invariant
                self.wf(),
                all == self@.schedules,
                all.len() == self.schedule_counter,
                0 <= i <= self.schedule_counter,
                found@ == all.take(i as int),
            decreases self.schedule_counter - i,
        {
            found.push(self.schedule_at(i));
            i = i + 1;
            assert(found@ =~= all.take(i as int));
        }
        assert(all.take(all.len() as int) =~= all);
        Ok(found)
    }
}

/// A stored job is read back under the identifier it was stored with; the
/// identifier was not in use before, and the other jobs are unchanged.
pub proof fn law_job_read_after_write(v: StoreView, job: JobEntry)
    ensures
        v.job(v.jobs.len() as int) is None,
        v.add_job(job).job(v.jobs.len() as int) == Some(job),
        v.add_job(job).jobs.len() == v.jobs.len() + 1,
        forall|id: int| id != v.jobs.len() ==> #[trigger] v.add_job(job).job(id) == v.job(id),
{
}

/// A new execution belongs to its job, has no status and no output yet, and
/// leaves the other executions unchanged.
pub proof fn law_new_execution_has_no_status(v: StoreView, job_id: i64, start_time: u64)
    ensures
        v.execution(v.executions.len() as int) is None,
        v.add_execution(job_id, start_time).execution(v.executions.len() as int) == Some(
            ExecutionEntry { job_id, start_time, status: None, stdout: None, stderr: None },
        ),
        forall|id: int|
            id != v.executions.len() ==> #[trigger] v.add_execution(job_id, start_time).execution(
                id,
            ) == v.execution(id),
{
}

/// An execution created at a clock reading starts at the reading's whole
/// seconds since the epoch, whatever its nanoseconds: it is read back with that
/// start time, and when no other execution of its job started later, it is
/// the job's latest execution.
pub proof fn law_execution_starts_at_reading(v: StoreView, job_id: i64, reading: (u64, u32))
    ensures
        v.add_execution(job_id, reading.0).execution(v.executions.len() as int) == Some(
            ExecutionEntry {
                job_id,
                start_time: reading.0,
                status: None,
                stdout: None,
                stderr: None,
            },
        ),
        (forall|k: int|
            0 <= k < v.executions.len() && #[trigger] v.executions[k].job_id == job_id
                ==> v.executions[k].start_time <= reading.0) ==> v.add_execution(
            job_id,
            reading.0,
        ).latest_execution(job_id) == Some(v.executions.len() as int),
{
    law_new_execution_has_no_status(v, job_id, reading.0);
    if forall|k: int|
        0 <= k < v.executions.len() && #[trigger] v.executions[k].job_id == job_id
            ==> v.executions[k].start_time <= reading.0 {
        law_new_execution_is_latest(v, job_id, reading.0);
    }
}

/// The status set for an execution is the status read back; nothing else
/// changes, and a later status replaces an earlier one.
pub proof fn law_status_read_after_write(
    v: StoreView,
    id: int,
    status: ExecutionStatus,
    later: ExecutionStatus,
)
    requires
        v.execution(id) is Some,
    ensures
        v.with_status(id, status).execution(id) == Some(
            ExecutionEntry { status: Some(status), ..v.executions[id] },
        ),
        forall|other: int|
            other != id ==> #[trigger] v.with_status(id, status).execution(other) == v.execution(
                other,
            ),
        v.with_status(id, status).jobs == v.jobs,
        v.with_status(id, status).with_status(id, later) == v.with_status(id, later),
{
    assert(v.with_status(id, status).with_status(id, later).executions =~= v.with_status(
        id,
        later,
    ).executions);
}

/// The outputs stored with the outcome of an execution are the outputs read
/// back, together with its status.
pub proof fn law_result_read_after_write(
    v: StoreView,
    id: int,
    stdout: Seq<char>,
    stderr: Seq<char>,
    status: ExecutionStatus,
)
    requires
        v.execution(id) is Some,
    ensures
        v.with_result(id, stdout, stderr, status).execution(id) == Some(
            ExecutionEntry {
                status: Some(status),
                stdout: Some(stdout),
                stderr: Some(stderr),
                ..v.executions[id]
            },
        ),
        forall|other: int|
            other != id ==> #[trigger] v.with_result(id, stdout, stderr, status).execution(other)
                == v.execution(other),
{
}

/// The most recent execution of a job among the first `n`: there is none
/// exactly when the job has no execution among them, and otherwise it is an
/// execution of the job that no other execution of the job is more recent
/// than.
pub proof fn law_latest_execution(v: StoreView, job_id: i64, n: nat)
    requires
        n <= v.executions.len(),
    ensures
        v.latest_among(job_id, n) is None <==> forall|k: int|
            0 <= k < n ==> #[trigger] v.executions[k].job_id != job_id,
        v.latest_among(job_id, n) matches Some(e) ==> {
            &&& 0 <= e < n
            &&& v.executions[e].job_id == job_id
            &&& forall|k: int|
                0 <= k < n && k != e && #[trigger] v.executions[k].job_id == job_id
                    ==> !v.more_recent(k, e)
        },
    decreases n,
{
    if n > 0 {
        law_latest_execution(v, job_id, (n - 1) as nat);
        if v.latest_among(job_id, n) is None {
            assert forall|k: int| 0 <= k < n implies #[trigger] v.executions[k].job_id
                != job_id by {
                if k < n - 1 {
                } else {
                }
            }
        }
    }
}

/// An execution that starts no earlier than every execution of its job
/// becomes the job's most recent execution.
pub proof fn law_new_execution_is_latest(v: StoreView, job_id: i64, start_time: u64)
    requires
        forall|k: int|
            0 <= k < v.executions.len() && #[trigger] v.executions[k].job_id == job_id
                ==> v.executions[k].start_time <= start_time,
    ensures
        v.add_execution(job_id, start_time).latest_execution(job_id) == Some(
            v.executions.len() as int,
        ),
{
    let w = v.add_execution(job_id, start_time);
    let n = v.executions.len();
    lemma_latest_prefix(v, w, job_id, n);
    law_latest_execution(v, job_id, n);
    let prev = v.latest_among(job_id, n);
    if prev is Some {
        let p = prev->Some_0;
        assert(v.executions[p].job_id == job_id);
        assert(w.executions[p] == v.executions[p]);
    }
    assert(w.executions[n as int].job_id == job_id);
}

proof fn lemma_latest_prefix(v: StoreView, w: StoreView, job_id: i64, m: nat)
    requires
        m <= v.executions.len(),
        m <= w.executions.len(),
        forall|k: int| 0 <= k < m ==> #[trigger] w.executions[k] == v.executions[k],
    ensures
        w.latest_among(job_id, m) == v.latest_among(job_id, m),
    decreases m,
{
    if m > 0 {
        lemma_latest_prefix(v, w, job_id, (m - 1) as nat);
        let p = v.latest_among(job_id, (m - 1) as nat);
        law_latest_execution(v, job_id, (m - 1) as nat);
        if p is Some {
            assert(w.executions[p->Some_0] == v.executions[p->Some_0]);
        }
        assert(w.executions[m - 1] == v.executions[m - 1]);
    }
}

/// The executions of a job among the first `n`: in increasing order, below
/// `n`, and exactly those of the job.
pub proof fn lemma_executions_of(v: StoreView, job_id: i64, n: nat)
    requires
        n <= v.executions.len(),
    ensures
        forall|a: int, b: int|
            0 <= a < b < v.executions_of(job_id, n).len() ==> #[trigger] v.executions_of(
                job_id,
                n,
            )[a] < #[trigger] v.executions_of(job_id, n)[b],
        forall|a: int|
            0 <= a < v.executions_of(job_id, n).len() ==> 0 <= #[trigger] v.executions_of(
                job_id,
                n,
            )[a] < n,
        forall|k: int|
            0 <= k < n ==> (v.executions_of(job_id, n).contains(k) <==> #[trigger] v.executions[k].job_id
                == job_id),
    decreases n,
{
    if n > 0 {
        lemma_executions_of(v, job_id, (n - 1) as nat);
        let prev = v.executions_of(job_id, (n - 1) as nat);
        assert forall|k: int| 0 <= k < n implies (v.executions_of(job_id, n).contains(k)
            <==> #[trigger] v.executions[k].job_id == job_id) by {
            if v.executions[n - 1].job_id == job_id {
                if k == n - 1 {
                    assert(v.executions_of(job_id, n)[prev.len() as int] == k);
                } else if v.executions_of(job_id, n).contains(k) {
                    let i = choose|i: int|
                        0 <= i < v.executions_of(job_id, n).len() && v.executions_of(job_id, n)[i]
                            == k;
                    assert(prev[i] == k);
                } else if prev.contains(k) {
                    let i = choose|i: int| 0 <= i < prev.len() && prev[i] == k;
                    assert(v.executions_of(job_id, n)[i] == k);
                }
            }
        }
    }
}

/// Where an execution is inserted: every earlier entry started no earlier
/// than it, and the entry at the insertion point started later.
pub proof fn lemma_insertion_point(v: StoreView, sorted: Seq<int>, id: int)
    ensures
        v.insertion_point(sorted, id) <= sorted.len(),
        forall|i: int|
            0 <= i < v.insertion_point(sorted, id) ==> v.executions[#[trigger] sorted[i]].start_time
                >= v.executions[id].start_time,
        v.insertion_point(sorted, id) < sorted.len() ==> v.executions[sorted[v.insertion_point(
            sorted,
            id,
        ) as int]].start_time < v.executions[id].start_time,
    decreases sorted.len(),
{
    if sorted.len() > 0 {
        lemma_insertion_point(v, sorted.drop_first(), id);
        if v.executions[sorted[0]].start_time >= v.executions[id].start_time {
            assert forall|i: int| 0 <= i < v.insertion_point(sorted, id) implies v.executions[
                #[trigger] sorted[i]
            ].start_time >= v.executions[id].start_time by {
                if i > 0 {
                    assert(sorted[i] == sorted.drop_first()[i - 1]);
                }
            }
        }
    }
}

/// Whether executions are ordered from the latest start time to the earliest,
/// those started at the same time by increasing identifier.
pub open spec fn ordered_by_recency(v: StoreView, ids: Seq<int>) -> bool {
    forall|a: int, b: int|
        0 <= a < b < ids.len() ==> {
            ||| v.executions[#[trigger] ids[a]].start_time > v.executions[#[trigger] ids[b]].start_time
            ||| (v.executions[ids[a]].start_time == v.executions[ids[b]].start_time && ids[a]
                < ids[b])
        }
}

/// Sorting executions that are listed in increasing order of identifier
/// orders them from the latest start time to the earliest, keeps the order of
/// those started at the same time, and keeps every one of them.
pub proof fn lemma_by_start_desc(v: StoreView, ids: Seq<int>)
    requires
        forall|a: int, b: int| 0 <= a < b < ids.len() ==> #[trigger] ids[a] < #[trigger] ids[b],
    ensures
        ordered_by_recency(v, v.by_start_desc(ids)),
        v.by_start_desc(ids).len() == ids.len(),
        forall|x: int| v.by_start_desc(ids).contains(x) <==> ids.contains(x),
    decreases ids.len(),
{
    if ids.len() > 0 {
        let rest = ids.drop_last();
        let x = ids.last();
        lemma_by_start_desc(v, rest);
        let sorted = v.by_start_desc(rest);
        let p = v.insertion_point(sorted, x) as int;
        lemma_insertion_point(v, sorted, x);
        let result = sorted.insert(p, x);
        assert(result == v.by_start_desc(ids));
        assert forall|y: int| sorted.contains(y) implies y < x by {
            assert(rest.contains(y));
            let i = choose|i: int| 0 <= i < rest.len() && rest[i] == y;
            assert(ids[i] < ids[ids.len() - 1]);
        }
        assert forall|a: int, b: int| 0 <= a < b < result.len() implies {
            ||| v.executions[#[trigger] result[a]].start_time > v.executions[#[trigger] result[
                b
            ]].start_time
            ||| (v.executions[result[a]].start_time == v.executions[result[b]].start_time
                && result[a] < result[b])
        } by {
            if b < p {
                assert(result[a] == sorted[a] && result[b] == sorted[b]);
            } else if b == p {
                assert(result[a] == sorted[a]);
                assert(sorted.contains(sorted[a]));
            } else if a < p {
                assert(result[a] == sorted[a] && result[b] == sorted[b - 1]);
                assert(a < b - 1 || a == b - 1);
            } else if a == p {
                assert(result[b] == sorted[b - 1]);
                assert(sorted.contains(sorted[b - 1]));
                if b - 1 > p {
                    assert(v.executions[sorted[p]].start_time >= v.executions[sorted[b
                        - 1]].start_time);
                }
            } else {
                assert(result[a] == sorted[a - 1] && result[b] == sorted[b - 1]);
            }
        }
        assert forall|y: int| result.contains(y) <==> ids.contains(y) by {
            if result.contains(y) {
                let i = choose|i: int| 0 <= i < result.len() && result[i] == y;
                if i < p {
                    assert(sorted[i] == y);
                    assert(sorted.contains(y));
                    assert(rest.contains(y));
                    let j = choose|j: int| 0 <= j < rest.len() && rest[j] == y;
                    assert(ids[j] == y);
                } else if i == p {
                    assert(ids[ids.len() - 1] == y);
                } else {
                    assert(sorted[i - 1] == y);
                    assert(sorted.contains(y));
                    assert(rest.contains(y));
                    let j = choose|j: int| 0 <= j < rest.len() && rest[j] == y;
                    assert(ids[j] == y);
                }
            }
            if ids.contains(y) {
                let j = choose|j: int| 0 <= j < ids.len() && ids[j] == y;
                if j == ids.len() - 1 {
                    assert(result[p] == y);
                } else {
                    assert(rest[j] == y);
                    assert(rest.contains(y));
                    assert(sorted.contains(y));
                    let i = choose|i: int| 0 <= i < sorted.len() && sorted[i] == y;
                    if i < p {
                        assert(result[i] == y);
                    } else {
                        assert(result[i + 1] == y);
                    }
                }
            }
        }
    }
}

/// The recent executions of a job are executions of that job, ordered from
/// the latest start time to the earliest (ties by increasing identifier);
/// there are `limit` of them, or all of the job's executions when it has
/// fewer; and they are the most recent ones: every execution of the job that
/// is left out started no later than each listed one (at the same time only
/// with a larger identifier).
pub proof fn law_recent_executions(v: StoreView, job_id: i64, limit: nat)
    ensures
        ordered_by_recency(v, v.recent_executions(job_id, limit)),
        forall|i: int|
            0 <= i < v.recent_executions(job_id, limit).len() ==> {
                let e = #[trigger] v.recent_executions(job_id, limit)[i];
                &&& 0 <= e < v.executions.len()
                &&& v.executions[e].job_id == job_id
            },
        v.recent_executions(job_id, limit).len() == if limit < v.executions_of(
            job_id,
            v.executions.len(),
        ).len() {
            limit
        } else {
            v.executions_of(job_id, v.executions.len()).len()
        },
        limit >= v.executions_of(job_id, v.executions.len()).len() ==> forall|k: int|
            0 <= k < v.executions.len() && #[trigger] v.executions[k].job_id == job_id
                ==> v.recent_executions(job_id, limit).contains(k),
        forall|i: int, k: int|
            0 <= i < v.recent_executions(job_id, limit).len() && 0 <= k < v.executions.len()
                && v.executions[k].job_id == job_id && !v.recent_executions(
                job_id,
                limit,
            ).contains(k) ==> {
                let e = #[trigger] v.recent_executions(job_id, limit)[i];
                ||| v.executions[e].start_time > #[trigger] v.executions[k].start_time
                ||| (v.executions[e].start_time == v.executions[k].start_time && e < k)
            },
{
    let n = v.executions.len();
    let ids = v.executions_of(job_id, n);
    lemma_executions_of(v, job_id, n);
    lemma_by_start_desc(v, ids);
    let sorted = v.by_start_desc(ids);
    let recent = v.recent_executions(job_id, limit);
    assert forall|i: int| 0 <= i < recent.len() implies {
        let e = #[trigger] recent[i];
        &&& 0 <= e < v.executions.len()
        &&& v.executions[e].job_id == job_id
    } by {
        assert(recent[i] == sorted[i]);
        assert(sorted.contains(sorted[i]));
        assert(ids.contains(sorted[i]));
        let j = choose|j: int| 0 <= j < ids.len() && ids[j] == sorted[i];
        assert(0 <= ids[j] < n);
    }
    if limit >= ids.len() {
        assert(recent =~= sorted);
        assert forall|k: int| 0 <= k < n && #[trigger] v.executions[k].job_id == job_id implies recent.contains(
            k,
        ) by {
            assert(ids.contains(k));
            assert(sorted.contains(k));
        }
    }
    assert forall|i: int, k: int|
        0 <= i < recent.len() && 0 <= k < n && v.executions[k].job_id == job_id
            && !recent.contains(k) implies {
        let e = #[trigger] recent[i];
        ||| v.executions[e].start_time > #[trigger] v.executions[k].start_time
        ||| (v.executions[e].start_time == v.executions[k].start_time && e < k)
    } by {
        assert(ids.contains(k));
        assert(sorted.contains(k));
        let p = choose|p: int| 0 <= p < sorted.len() && sorted[p] == k;
        if p < recent.len() {
            assert(recent[p] == sorted[p]);
            assert(recent.contains(k));
        }
        assert(recent[i] == sorted[i]);
        assert(i < p);
    }
    assert forall|a: int, b: int| 0 <= a < b < recent.len() implies {
        ||| v.executions[#[trigger] recent[a]].start_time > v.executions[#[trigger] recent[b]].start_time
        ||| (v.executions[recent[a]].start_time == v.executions[recent[b]].start_time && recent[a]
            < recent[b])
    } by {
        assert(recent[a] == sorted[a] && recent[b] == sorted[b]);
    }
}

} // verus!
