//! The logic of the web interface: what it shows of jobs and executions, the
//! queue of actions the user asked for, and the tree of stages of a job.
use std::collections::VecDeque;
use vstd::prelude::*;
use crate::model::{ExecutionDetails, JobCreationRequest, LastExecution};
use crate::text::{decimal, decimal_text, push_char};

verus! {

/// State of a job as the interface shows it.
#[derive(Debug, Clone, Copy, PartialEq, Eq, Structural)]
pub enum ExecutionStatus {
    Success,
    Failed,
    Error,
    Running,
    NotExecuted,
}

/// The state shown for an execution with this status; no status yet means
/// it is running.
pub open spec fn shown_status(status: Option<crate::model::ExecutionStatus>) -> ExecutionStatus {
    match status {
        Some(crate::model::ExecutionStatus::Success) => ExecutionStatus::Success,
        Some(crate::model::ExecutionStatus::Failed) => ExecutionStatus::Failed,
        Some(crate::model::ExecutionStatus::InvalidConfig) => ExecutionStatus::Error,
        None => ExecutionStatus::Running,
    }
}

/// The text shown for a state.
pub open spec fn shown_status_text(status: ExecutionStatus) -> Seq<char> {
    match status {
        ExecutionStatus::Success => "Success"@,
        ExecutionStatus::Failed => "Failed"@,
        ExecutionStatus::Error => "Error"@,
        ExecutionStatus::Running => "Running"@,
        ExecutionStatus::NotExecuted => "Not executed"@,
    }
}

impl ExecutionStatus {
    /// The state shown for an execution with this status.
    pub fn from(value: Option<crate::model::ExecutionStatus>) -> (status: ExecutionStatus)
        ensures
            status == shown_status(value),
    {
        match value {
            Some(crate::model::ExecutionStatus::Success) => ExecutionStatus::Success,
            Some(crate::model::ExecutionStatus::Failed) => ExecutionStatus::Failed,
            Some(crate::model::ExecutionStatus::InvalidConfig) => ExecutionStatus::Error,
            None => ExecutionStatus::Running,
        }
    }

    /// The text shown for this state.
    pub fn to_string(&self) -> (text: String)
        ensures
            text@ == shown_status_text(*self),
    {
        match self {
            ExecutionStatus::Success => "Success".to_owned(),
            ExecutionStatus::Failed => "Failed".to_owned(),
            ExecutionStatus::Error => "Error".to_owned(),
            ExecutionStatus::Running => "Running".to_owned(),
            ExecutionStatus::NotExecuted => "Not executed".to_owned(),
        }
    }
}

impl Default for ExecutionStatus {
    /// A job that never ran.
    fn default() -> (status: ExecutionStatus)
        ensures
            status == ExecutionStatus::NotExecuted,
    {
        ExecutionStatus::NotExecuted
    }
}

/// The start time and state shown in the row of a job.
pub struct JobData {
    pub start_time: String,
    pub status: ExecutionStatus,
}

impl JobData {
    /// The row of a job from its last execution: an empty start time and
    /// "not executed" when it never ran.
    pub fn from(value: Option<LastExecution>) -> (data: JobData)
        ensures
            value is None ==> data.status == ExecutionStatus::NotExecuted && data.start_time@
                == Seq::<char>::empty(),
            value matches Some(last) ==> data.status == shown_status(last.status)
                && data.start_time@ == last.start_time@,
    {
        match value {
            None => JobData { start_time: String::new(), status: ExecutionStatus::NotExecuted },
            Some(last) => JobData {
                start_time: last.start_time,
                status: ExecutionStatus::from(last.status),
            },
        }
    }

    /// The row of a job from the details of an execution.
    pub fn from_details(value: ExecutionDetails) -> (data: JobData)
        ensures
            data.status == shown_status(value.status),
            data.start_time@ == value.start_time@,
    {
        JobData { start_time: value.start_time, status: ExecutionStatus::from(value.status) }
    }
}

/// What the text of a job card shows as the status of an execution, from its
/// stored code.
pub open spec fn card_status_text(status: Option<i64>) -> Seq<char> {
    match status {
        Some(0) => "Success"@,
        Some(1) => "Failure"@,
        Some(2) => "Canceled"@,
        None => "Executing"@,
        Some(_) => "Unknown"@,
    }
}

/// What a job card shows as the status of an execution, from its stored code.
pub fn card_status(status: Option<i64>) -> (text: String)
    ensures
        text@ == card_status_text(status),
{
    match status {
        Some(0) => "Success".to_owned(),
        Some(1) => "Failure".to_owned(),
        Some(2) => "Canceled".to_owned(),
        None => "Executing".to_owned(),
        Some(_) => "Unknown".to_owned(),
    }
}

/// What a job card shows of a value it has not loaded yet.
pub open spec fn card_value_text(value: Option<Seq<char>>) -> Seq<char> {
    match value {
        Some(text) => text,
        None => "Not loaded"@,
    }
}

/// What a job card shows as the start time of the last execution: the time,
/// or "Not loaded" until it is loaded.
pub fn card_start_time(start_time: Option<String>) -> (text: String)
    ensures
        text@ == card_value_text(match start_time {
            Some(t) => Some(t@),
            None => None,
        }),
{
    match start_time {
        Some(time) => time,
        None => "Not loaded".to_owned(),
    }
}

/// What a job card shows as the status of the last execution, from the
/// stored code of the execution once it is loaded.
pub fn card_execution_status(execution: Option<Option<i64>>) -> (text: String)
    ensures
        text@ == card_value_text(match execution {
            Some(status) => Some(card_status_text(status)),
            None => None,
        }),
{
    match execution {
        Some(status) => card_status(status),
        None => "Not loaded".to_owned(),
    }
}

/// The duration shown for an execution: its seconds followed by ` secs`, or
/// nothing when it has not finished.
pub fn duration_text(duration: Option<i64>) -> (text: String)
    ensures
        text@ == match duration {
            Some(d) => decimal_text(d as int) + " secs"@,
            None => Seq::<char>::empty(),
        },
{
    match duration {
        Some(d) => {
            let mut text = decimal(d);
            text.append(" secs");
            text
        },
        None => String::new(),
    }
}

/// Something the user asked the interface to do.
#[derive(Debug)]
pub enum Action {
    Run(i64),
    Add(JobCreationRequest),
}

/// The largest of some identifiers, or 0 when there is none.
pub open spec fn max_id(ids: Seq<i64>) -> int
    decreases ids.len(),
{
    if ids.len() == 0 {
        0
    } else if ids.len() == 1 {
        ids[0] as int
    } else {
        let m = max_id(ids.drop_last());
        if ids.last() > m {
            ids.last() as int
        } else {
            m
        }
    }
}

/// The first position of an identifier.
pub open spec fn first_position(ids: Seq<i64>, id: i64) -> Option<int>
    decreases ids.len(),
{
    if ids.len() == 0 {
        None
    } else if ids[0] == id {
        Some(0)
    } else {
        match first_position(ids.drop_first(), id) {
            Some(p) => Some(p + 1),
            None => None,
        }
    }
}

/// The actions the user asked for, in order, each under an identifier.
pub struct ActionQueue {
    actions: VecDeque<(i64, Action)>,
}

impl ActionQueue {
    /// The identifiers of the queued actions, in order.
    pub closed spec fn ids(&self) -> Seq<i64> {
        self.actions@.map_values(|entry: (i64, Action)| entry.0)
    }

    /// The queued actions, in order.
    pub closed spec fn entries(&self) -> Seq<(i64, Action)> {
        self.actions@
    }

    /// An empty queue.
    pub fn new() -> (queue: ActionQueue)
        ensures
            queue.entries() == Seq::<(i64, Action)>::empty(),
    {
        ActionQueue { actions: VecDeque::new() }
    }

    /// The identifier of the oldest action, if any.
    pub fn first(&self) -> (id: Option<i64>)
        ensures
            self.entries().len() == 0 ==> id is None,
            self.entries().len() > 0 ==> id == Some(self.entries()[0].0),
    {
        if self.actions.len() == 0 {
            None
        } else {
            Some(self.actions[0].0)
        }
    }

    /// The first action queued under an identifier.
    pub fn fetch(self, id: i64) -> (action: Option<Action>)
        ensures
            first_position(self.ids(), id) is None ==> action is None,
            first_position(self.ids(), id) matches Some(p) ==> action == Some(self.entries()[p].1),
    {
        let mut actions = self.actions;
        match Self::position_in(&actions, id) {
            Some(i) => match actions.remove(i) {
                Some((_, action)) => Some(action),
                None => None,
            },
            None => None,
        }
    }

    fn position_in(actions: &VecDeque<(i64, Action)>, id: i64) -> (index: Option<usize>)
        ensures
            match index {
                None => first_position(actions@.map_values(|entry: (i64, Action)| entry.0), id) is None,
                Some(i) => first_position(actions@.map_values(|entry: (i64, Action)| entry.0), id)
                    == Some(i as int),
            },
            index matches Some(i) ==> i < actions@.len(),
    {
        let mut i: usize = 0;
        let ghost ids = actions@.map_values(|entry: (i64, Action)| entry.0);
        while i < actions.len()
            invariant
                i <= actions@.len(),
                ids == actions@.map_values(|entry: (i64, Action)| entry.0),
                forall|k: int| 0 <= k < i ==> #[trigger] ids[k] != id,
            decreases actions@.len() - i,
        {
            assert(ids[i as int] == actions@[i as int].0);
            if actions[i].0 == id {
                proof {
                    lemma_first_position(ids, id, i as int);
                }
                return Some(i);
            }
            i = i + 1;
        }
        proof {
            lemma_first_position_absent(ids, id);
        }
        None
    }

    /// Removes the first action queued under an identifier, which must be in
    /// the queue.
    pub fn remove(&mut self, id: i64)
        requires
            first_position(old(self).ids(), id) is Some,
        ensures
            final(self).entries() == old(self).entries().remove(
                first_position(old(self).ids(), id)->Some_0,
            ),
    {
        match Self::position_in(&self.actions, id) {
            Some(i) => {
                let _ = self.actions.remove(i);
            },
            None => {},
        }
    }

    /// Handles the notification for the oldest queued action, whose
    /// identifier is `id` (none when the queue is empty): a queued action is
    /// taken off the queue and the jobs are to be refreshed; an identifier
    /// with no queued action gives a message. Returns whether to refresh, and
    /// the message to show.
    pub fn notification_step(&mut self, id: Option<i64>) -> (out: (bool, Option<String>))
        ensures
            id is None ==> final(self).entries() == old(self).entries() && out == (
                false,
                None::<String>,
            ),
            match id {
                Some(i) => match first_position(old(self).ids(), i) {
                    Some(p) => {
                        &&& final(self).entries() == old(self).entries().remove(p)
                        &&& out.0
                        &&& out.1 is None
                    },
                    None => true,
                },
                None => true,
            },
            match id {
                Some(i) => first_position(old(self).ids(), i) is None ==> {
                    &&& final(self).entries() == old(self).entries()
                    &&& !out.0
                    &&& out.1 is Some
                    &&& out.1->Some_0@ == "Action not found: "@ + decimal_text(i as int)
                },
                None => true,
            },
    {
        match id {
            None => (false, None),
            Some(i) => match Self::position_in(&self.actions, i) {
                Some(p) => {
                    let _ = self.actions.remove(p);
                    (true, None)
                },
                None => {
                    let mut message = "Action not found: ".to_owned();
                    message.append(decimal(i).as_str());
                    (false, Some(message))
                },
            },
        }
    }

    /// Queues an action under the identifier one above the largest in the
    /// queue (1 when the queue is empty).
    pub fn add(&mut self, action: Action)
        requires
            max_id(old(self).ids()) < i64::MAX,
        ensures
            final(self).entries() == old(self).entries().push(
                ((max_id(old(self).ids()) + 1) as i64, action),
            ),
    {
        let mut max: i64 = 0;
        let mut i: usize = 0;
        while i < self.actions.len()
            invariant
                i <= self.actions@.len(),
                self.actions@ == old(self).actions@,
                i > 0 ==> max == max_id(self.ids().take(i as int)),
                i == 0 ==> max == 0,
            decreases self.actions@.len() - i,
        {
            let id = self.actions[i].0;
            proof {
                assert(self.ids().take(i + 1).drop_last() =~= self.ids().take(i as int));
                assert(self.ids().take(i + 1).last() == id);
            }
            if i == 0 || id > max {
                max = id;
            }
            i = i + 1;
        }
        assert(self.ids().take(self.ids().len() as int) =~= self.ids());
        self.actions.push_back((max + 1, action));
    }
}

proof fn lemma_first_position(ids: Seq<i64>, id: i64, i: int)
    requires
        0 <= i < ids.len(),
        ids[i] == id,
        forall|k: int| 0 <= k < i ==> ids[k] != id,
    ensures
        first_position(ids, id) == Some(i),
    decreases ids.len(),
{
    if i > 0 {
        lemma_first_position(ids.drop_first(), id, i - 1);
    }
}

proof fn lemma_first_position_absent(ids: Seq<i64>, id: i64)
    requires
        forall|k: int| 0 <= k < ids.len() ==> ids[k] != id,
    ensures
        first_position(ids, id) is None,
    decreases ids.len(),
{
    if ids.len() > 0 {
        lemma_first_position_absent(ids.drop_first(), id);
    }
}

/// Every identifier is at most the largest one.
pub proof fn lemma_max_id(ids: Seq<i64>)
    ensures
        forall|k: int| 0 <= k < ids.len() ==> #[trigger] ids[k] <= max_id(ids),
    decreases ids.len(),
{
    if ids.len() > 1 {
        lemma_max_id(ids.drop_last());
        assert forall|k: int| 0 <= k < ids.len() implies #[trigger] ids[k] <= max_id(ids) by {
            if k < ids.len() - 1 {
                assert(ids[k] == ids.drop_last()[k]);
            }
        }
    }
}

/// An added action is queued last under an identifier no other queued action
/// has, so fetching that identifier gives the action back; the oldest action
/// stays first.
pub proof fn law_added_action_is_fetched(entries: Seq<(i64, Action)>, action: Action)
    requires
        max_id(entries.map_values(|entry: (i64, Action)| entry.0)) < i64::MAX,
    ensures
        ({
            let ids = entries.map_values(|entry: (i64, Action)| entry.0);
            let id = (max_id(ids) + 1) as i64;
            let after = entries.push((id, action));
            &&& forall|k: int| 0 <= k < entries.len() ==> #[trigger] entries[k].0 != id
            &&& first_position(after.map_values(|entry: (i64, Action)| entry.0), id) == Some(
                entries.len() as int,
            )
            &&& after[entries.len() as int].1 == action
            &&& entries.len() > 0 ==> after[0] == entries[0]
        }),
{
    let ids = entries.map_values(|entry: (i64, Action)| entry.0);
    let id = (max_id(ids) + 1) as i64;
    let after = entries.push((id, action));
    lemma_max_id(ids);
    assert forall|k: int| 0 <= k < entries.len() implies #[trigger] entries[k].0 != id by {
        assert(ids[k] == entries[k].0);
    }
    let after_ids = after.map_values(|entry: (i64, Action)| entry.0);
    assert forall|k: int| 0 <= k < entries.len() implies after_ids[k] != id by {
        assert(after_ids[k] == entries[k].0);
    }
    lemma_first_position(after_ids, id, entries.len() as int);
}

/// A stage of a job as the interface knows it: it may depend on another
/// stage, named by identifier.
#[derive(Debug)]
pub struct Stage {
    pub id: i64,
    pub dependency: Option<i64>,
    pub description: String,
}

/// A stage together with the stages that depend on it.
#[derive(Debug)]
pub struct StageWithChildren {
    pub id: i64,
    pub name: String,
    pub children: Vec<StageWithChildren>,
}

/// Whether the stage at position `j` depends on the stage at position `k`.
pub open spec fn depends_on(stages: Seq<Stage>, j: int, k: int) -> bool {
    0 <= j < stages.len() && 0 <= k < stages.len() && stages[j].dependency == Some(stages[k].id)
}

/// Whether `rank` ranks, below every ranked stage, the stages that depend on
/// it.
pub open spec fn ranks_dependents(stages: Seq<Stage>, rank: spec_fn(int) -> Option<nat>) -> bool {
    forall|j: int, k: int|
        #[trigger] depends_on(stages, j, k) && rank(k) is Some ==> rank(j) is Some && rank(j)->0
            < rank(k)->0
}

/// Whether the stages that depend on the stage at position `idx`, the stages
/// that depend on those, and so on, never lead back to a stage met before:
/// then building the tree of that stage ends.
pub open spec fn tree_is_finite(stages: Seq<Stage>, idx: int) -> bool {
    exists|rank: spec_fn(int) -> Option<nat>| #[trigger]
        ranks_dependents(stages, rank) && rank(idx) is Some
}

/// The positions, among the first `n`, of the stages that depend on the stage
/// at position `idx`, in order.
pub open spec fn children_among(stages: Seq<Stage>, idx: int, n: nat) -> Seq<int>
    decreases n,
{
    if n == 0 {
        Seq::empty()
    } else {
        let prev = children_among(stages, idx, (n - 1) as nat);
        if stages[n - 1].dependency == Some(stages[idx].id) {
            prev.push(n - 1)
        } else {
            prev
        }
    }
}

/// Whether a tree shows the stage at position `idx` with, in order, the trees
/// of the stages that depend on it.
pub open spec fn shows_stage(tree: StageWithChildren, stages: Seq<Stage>, idx: int) -> bool
    decreases tree,
{
    let kids = children_among(stages, idx, stages.len());
    &&& tree.id == stages[idx].id
    &&& tree.name@ == stages[idx].description@
    &&& tree.children@.len() == kids.len()
    &&& forall|c: int|
        0 <= c < kids.len() ==> #[trigger] shows_stage(tree.children@[c], stages, kids[c])
}

proof fn lemma_shows_stage(tree: StageWithChildren, stages: Seq<Stage>, idx: int)
    requires
        tree.id == stages[idx].id,
        tree.name@ == stages[idx].description@,
        tree.children@.len() == children_among(stages, idx, stages.len()).len(),
        forall|c: int|
            0 <= c < children_among(stages, idx, stages.len()).len() ==> #[trigger] shows_stage(
                tree.children@[c],
                stages,
                children_among(stages, idx, stages.len())[c],
            ),
    ensures
        shows_stage(tree, stages, idx),
{
    reveal_with_fuel(shows_stage, 2);
    assert(forall|c: int|
        0 <= c < children_among(stages, idx, stages.len()).len() ==> shows_stage(
            tree.children@[c],
            stages,
            children_among(stages, idx, stages.len())[c],
        ));
}

impl StageWithChildren {
    /// The tree of stages rooted at the first stage.
    pub fn new(stages: &[Stage]) -> (tree: StageWithChildren)
        requires
            stages@.len() > 0,
            tree_is_finite(stages@, 0),
        ensures
            shows_stage(tree, stages@, 0),
    {
        StageWithChildren::new_recursive(stages, 0)
    }

    /// The tree of stages rooted at the stage at position `idx`.
    pub fn new_recursive(stages: &[Stage], idx: usize) -> (tree: StageWithChildren)
        requires
            idx < stages@.len(),
            tree_is_finite(stages@, idx as int),
        ensures
            shows_stage(tree, stages@, idx as int),
    {
        let ghost rank = choose|rank: spec_fn(int) -> Option<nat>|
            #[trigger] ranks_dependents(stages@, rank) && rank(idx as int) is Some;
        StageWithChildren::build(stages, idx, Ghost(rank))
    }

    fn build(stages: &[Stage], idx: usize, Ghost(rank): Ghost<spec_fn(int) -> Option<nat>>) -> (tree:
        StageWithChildren)
        requires
            idx < stages@.len(),
            ranks_dependents(stages@, rank),
            rank(idx as int) is Some,
        ensures
            shows_stage(tree, stages@, idx as int),
        decreases rank(idx as int)->0,
    {
        let stage = &stages[idx];
        let mut children: Vec<StageWithChildren> = Vec::new();
        let mut j: usize = 0;
        while j < stages.len()
            invariant
                idx < stages@.len(),
                j <= stages@.len(),
                ranks_dependents(stages@, rank),
                rank(idx as int) is Some,
                *stage == stages@[idx as int],
                children@.len() == children_among(stages@, idx as int, j as nat).len(),
                forall|c: int|
                    0 <= c < children@.len() ==> #[trigger] shows_stage(
                        children@[c],
                        stages@,
                        children_among(stages@, idx as int, j as nat)[c],
                    ),
            decreases stages@.len() - j,
        {
            let ghost before = children_among(stages@, idx as int, j as nat);
            match stages[j].dependency {
                Some(dependency) => {
                    if dependency == stage.id {
                        assert(depends_on(stages@, j as int, idx as int));
                        let child = StageWithChildren::build(stages, j, Ghost(rank));
                        let ghost earlier = children@;
                        children.push(child);
                        assert(children_among(stages@, idx as int, (j + 1) as nat) == before.push(
                            j as int,
                        ));
                        assert forall|c: int| 0 <= c < children@.len() implies #[trigger] shows_stage(
                            children@[c],
                            stages@,
                            children_among(stages@, idx as int, (j + 1) as nat)[c],
                        ) by {
                            if c < before.len() {
                                assert(children@[c] == earlier[c]);
                            }
                        }
                    }
                },
                None => {},
            }
            j = j + 1;
        }
        let tree = StageWithChildren { id: stage.id, name: stage.description.clone(), children };
        proof {
            assert(j == stages@.len());
            assert(tree.children@ == children@);
            lemma_shows_stage(tree, stages@, idx as int);
        }
        tree
    }
}

/// Whether `pattern` occurs in `s` at position `at`.
pub open spec fn occurs_at(s: Seq<char>, pattern: Seq<char>, at: int) -> bool {
    0 <= at && at + pattern.len() <= s.len() && s.subrange(at, at + pattern.len()) == pattern
}

/// The first position at or after `from` where `pattern` occurs in `s`.
pub open spec fn find_from(s: Seq<char>, pattern: Seq<char>, from: int) -> Option<int>
    decreases s.len() + 1 - from,
{
    if from < 0 || from + pattern.len() > s.len() {
        None
    } else if occurs_at(s, pattern, from) {
        Some(from)
    } else {
        find_from(s, pattern, from + 1)
    }
}

/// The first position at or after `from` of a character.
pub open spec fn find_char(s: Seq<char>, c: char, from: int) -> Option<int>
    decreases s.len() - from,
{
    if from < 0 || from >= s.len() {
        None
    } else if s[from] == c {
        Some(from)
    } else {
        find_char(s, c, from + 1)
    }
}

/// The last position before `end` of a character.
pub open spec fn rfind_char(s: Seq<char>, c: char, end: int) -> Option<int>
    decreases end,
{
    if end <= 0 || end > s.len() {
        None
    } else if s[end - 1] == c {
        Some(end - 1)
    } else {
        rfind_char(s, c, end - 1)
    }
}

/// The title of a job card, taken from the job's repository address: the
/// last segment of the path after `://`, up to its first dot. An address
/// without `://`, or whose last segment has no dot, has no title.
pub open spec fn job_title_text(source: Seq<char>) -> Option<Seq<char>> {
    match find_from(source, seq![':', '/', '/'], 0) {
        None => None,
        Some(k) => {
            let rest = source.skip(k + 3);
            let segment = match rfind_char(rest, '/', rest.len() as int) {
                Some(slash) => rest.skip(slash + 1),
                None => rest,
            };
            match find_char(segment, '.', 0) {
                Some(dot) => Some(segment.take(dot)),
                None => None,
            }
        },
    }
}

proof fn lemma_find_from_first(s: Seq<char>, pattern: Seq<char>, from: int, k: int)
    requires
        0 <= from <= k,
        occurs_at(s, pattern, k),
        forall|j: int| from <= j < k ==> !occurs_at(s, pattern, j),
    ensures
        find_from(s, pattern, from) == Some(k),
    decreases k - from,
{
    if from < k {
        lemma_find_from_first(s, pattern, from + 1, k);
    }
}

proof fn lemma_find_char_first(s: Seq<char>, c: char, from: int, k: int)
    requires
        0 <= from <= k < s.len(),
        s[k] == c,
        forall|j: int| from <= j < k ==> s[j] != c,
    ensures
        find_char(s, c, from) == Some(k),
    decreases k - from,
{
    if from < k {
        lemma_find_char_first(s, c, from + 1, k);
    }
}

proof fn lemma_rfind_char_last(s: Seq<char>, c: char, end: int, k: int)
    requires
        0 <= k < end <= s.len(),
        s[k] == c,
        forall|j: int| k < j < end ==> s[j] != c,
    ensures
        rfind_char(s, c, end) == Some(k),
    decreases end,
{
    if end - 1 > k {
        lemma_rfind_char_last(s, c, end - 1, k);
    }
}

proof fn lemma_rfind_char_absent(s: Seq<char>, c: char, end: int)
    requires
        0 <= end <= s.len(),
        forall|j: int| 0 <= j < end ==> s[j] != c,
    ensures
        rfind_char(s, c, end) is None,
    decreases end,
{
    if end > 0 {
        lemma_rfind_char_absent(s, c, end - 1);
    }
}

/// The title of an address `scheme://dirs/name.ext` is `name`, whatever the
/// scheme (any text in which `://` does not start earlier), the directories
/// (empty, or ending with a slash; they may hold dots), and the extension
/// (which may hold more dots): the last segment of the path, up to its first
/// dot.
pub proof fn law_job_title_is_last_segment_before_dot(
    scheme: Seq<char>,
    dirs: Seq<char>,
    name: Seq<char>,
    ext: Seq<char>,
)
    requires
        forall|j: int|
            0 <= j < scheme.len() ==> !occurs_at(scheme + seq![':', '/', '/'], seq![':', '/', '/'], j),
        dirs.len() == 0 || dirs.last() == '/',
        forall|i: int| 0 <= i < name.len() ==> name[i] != '.' && name[i] != '/',
        forall|i: int| 0 <= i < ext.len() ==> ext[i] != '/',
    ensures
        job_title_text(scheme + seq![':', '/', '/'] + dirs + name + seq!['.'] + ext) == Some(name),
{
    let p = seq![':', '/', '/'];
    let head = scheme + p;
    let tail = dirs + name + seq!['.'] + ext;
    let src = scheme + p + dirs + name + seq!['.'] + ext;
    assert(src =~= head + tail);
    let k = scheme.len() as int;
    assert(src.subrange(k, k + 3) =~= p);
    assert forall|j: int| 0 <= j < k implies !occurs_at(src, p, j) by {
        assert(!occurs_at(head, p, j));
        assert(j + 3 <= head.len());
        assert(src.subrange(j, j + 3) =~= head.subrange(j, j + 3));
    }
    lemma_find_from_first(src, p, 0, k);
    let rest = src.skip(k + 3);
    assert(rest =~= tail);
    let segment_tail = name + seq!['.'] + ext;
    assert forall|j: int| dirs.len() <= j < rest.len() implies rest[j] != '/' by {
        let i = j - dirs.len();
        if i < name.len() {
            assert(rest[j] == name[i]);
        } else if i == name.len() {
            assert(rest[j] == '.');
        } else {
            assert(rest[j] == ext[i - name.len() - 1]);
        }
    }
    let segment = if dirs.len() > 0 {
        lemma_rfind_char_last(rest, '/', rest.len() as int, dirs.len() - 1);
        assert(rest[dirs.len() - 1] == dirs.last());
        rest.skip(dirs.len() as int)
    } else {
        lemma_rfind_char_absent(rest, '/', rest.len() as int);
        rest
    };
    assert(segment =~= segment_tail);
    assert(segment[name.len() as int] == '.');
    assert forall|j: int| 0 <= j < name.len() implies segment[j] != '.' by {
        assert(segment[j] == name[j]);
    }
    lemma_find_char_first(segment, '.', 0, name.len() as int);
    assert(segment.take(name.len() as int) =~= name);
}

fn scheme_end(s: &str) -> (k: Option<usize>)
    ensures
        match k {
            None => find_from(s@, seq![':', '/', '/'], 0) is None,
            Some(i) => find_from(s@, seq![':', '/', '/'], 0) == Some(i as int),
        },
        k matches Some(i) ==> i + 3 <= s@.len(),
{
    let n = s.unicode_len();
    let mut i: usize = 0;
    while i < n && n - i >= 3
        invariant
            n == s@.len(),
            i <= n,
            find_from(s@, seq![':', '/', '/'], 0) == find_from(s@, seq![':', '/', '/'], i as int),
        decreases n - i,
    {
        let found = s.get_char(i) == ':' && s.get_char(i + 1) == '/' && s.get_char(i + 2) == '/';
        proof {
            let p = seq![':', '/', '/'];
            if found {
                assert(s@.subrange(i as int, i + 3) =~= p);
            } else {
                if s@.subrange(i as int, i + 3) == p {
                    assert(s@.subrange(i as int, i + 3)[0] == s@[i as int]);
                    assert(s@.subrange(i as int, i + 3)[1] == s@[i + 1]);
                    assert(s@.subrange(i as int, i + 3)[2] == s@[i + 2]);
                }
            }
        }
        if found {
            return Some(i);
        }
        i = i + 1;
    }
    None
}

/// The title of a job card, from the job's repository address.
pub fn job_title(source: &str) -> (title: Option<String>)
    ensures
        title is None ==> job_title_text(source@) is None,
        title matches Some(t) ==> job_title_text(source@) == Some(t@),
{
    let k = match scheme_end(source) {
        None => return None,
        Some(k) => k,
    };
    let n = source.unicode_len();
    let rest = source.substring_char(k + 3, n);
    assert(rest@ =~= source@.skip(k + 3));
    let rest_len = rest.unicode_len();
    let mut end: usize = rest_len;
    while end > 0 && rest.get_char(end - 1) != '/'
        invariant
            rest_len == rest@.len(),
            end <= rest_len,
            rfind_char(rest@, '/', rest_len as int) == rfind_char(rest@, '/', end as int),
        decreases end,
    {
        end = end - 1;
    }
    let segment = if end > 0 {
        rest.substring_char(end, rest_len)
    } else {
        rest
    };
    assert(end > 0 ==> segment@ =~= rest@.skip(end as int));
    let segment_len = segment.unicode_len();
    let mut dot: usize = 0;
    while dot < segment_len && segment.get_char(dot) != '.'
        invariant
            segment_len == segment@.len(),
            dot <= segment_len,
            find_char(segment@, '.', 0) == find_char(segment@, '.', dot as int),
        decreases segment_len - dot,
    {
        dot = dot + 1;
    }
    if dot == segment_len {
        return None;
    }
    let title = segment.substring_char(0, dot);
    assert(title@ =~= segment@.take(dot as int));
    Some(title.to_owned())
}

/// The text `str::to_uppercase` makes of a string.
pub uninterp spec fn uppercase_text(s: Seq<char>) -> Seq<char>;

/// The text `char::to_uppercase` makes of a character.
pub uninterp spec fn char_uppercase_text(c: char) -> Seq<char>;

/// The upper case of a string.
///
/// Trusted: wraps `str::to_uppercase`; its result is named by
/// [`uppercase_text`]. What the Unicode mapping is, is left unsaid.
#[verifier::external_body]
fn uppercase(s: &str) -> (upper: String)
    ensures
        upper@ == uppercase_text(s@),
{
    s.to_uppercase()
}

/// The upper case of a character, which may take several characters.
///
/// Trusted: wraps `char::to_uppercase`, collected into a string; its result
/// is named by [`char_uppercase_text`]. What the Unicode mapping is, is left
/// unsaid.
#[verifier::external_body]
fn char_uppercase(c: char) -> (upper: String)
    ensures
        upper@ == char_uppercase_text(c),
{
    c.to_uppercase().collect::<String>()
}

/// A text with each underscore shown as a space.
pub open spec fn underscores_as_spaces_text(text: Seq<char>) -> Seq<char> {
    text.map_values(|c: char| if c == '_' { ' ' } else { c })
}

/// A job name as shown on its card: in upper case, with underscores shown as
/// spaces.
pub open spec fn display_name_text(name: Seq<char>) -> Seq<char> {
    underscores_as_spaces_text(uppercase_text(name))
}

/// A text with each underscore shown as a space.
pub fn underscores_as_spaces(text: &str) -> (shown: String)
    ensures
        shown@ == underscores_as_spaces_text(text@),
{
    let n = text.unicode_len();
    let mut shown = String::new();
    let mut i: usize = 0;
    while i < n
        invariant
            n == text@.len(),
            i <= n,
            shown@ == text@.take(i as int).map_values(|c: char| if c == '_' { ' ' } else { c }),
        decreases n - i,
    {
        let c = text.get_char(i);
        if c == '_' {
            push_char(&mut shown, ' ');
        } else {
            push_char(&mut shown, c);
        }
        proof {
            assert(text@.take(i + 1) =~= text@.take(i as int).push(c));
        }
        i = i + 1;
        assert(shown@ =~= text@.take(i as int).map_values(
            |c: char| if c == '_' { ' ' } else { c },
        ));
    }
    assert(text@.take(n as int) =~= text@);
    shown
}

/// A job name as shown on its card.
pub fn display_job_name(job_name: &str) -> (shown: String)
    ensures
        shown@ == display_name_text(job_name@),
{
    let upper = uppercase(job_name);
    underscores_as_spaces(upper.as_str())
}

/// A string with its first character in upper case.
pub open spec fn capitalized_text(s: Seq<char>) -> Seq<char> {
    if s.len() == 0 {
        Seq::empty()
    } else {
        char_uppercase_text(s[0]) + s.skip(1)
    }
}

/// A non-empty string with its first character replaced by `first`, the
/// text of that character in upper case.
pub fn with_first_replaced(first: String, s: &str) -> (replaced: String)
    requires
        s@.len() > 0,
    ensures
        replaced@ == first@ + s@.skip(1),
{
    let n = s.unicode_len();
    let mut replaced = first;
    replaced.append(s.substring_char(1, n));
    assert(s@.subrange(1, n as int) =~= s@.skip(1));
    replaced
}

/// A string with its first character in upper case.
pub fn capitalize(s: &str) -> (capitalized: String)
    ensures
        capitalized@ == capitalized_text(s@),
{
    let n = s.unicode_len();
    if n == 0 {
        return String::new();
    }
    with_first_replaced(char_uppercase(s.get_char(0)), s)
}

} // verus!
