//! Data model of the execution core: playbooks, plays, tasks, guards,
//! operations, task outcomes and run reports, together with their
//! mathematical views and the association-list lookups that variable scopes
//! and the system-state model are built on.
//!
//! A variable scope and the system-state tables are association sequences in
//! which a later binding shadows an earlier one: a lookup returns the value of
//! the last pair whose key matches.

use vstd::prelude::*;

verus! {

/// What the executor does with the rest of the run once a task has failed.
#[derive(Clone, Copy, Debug, PartialEq, Eq, Structural)]
pub enum FailurePolicy {
    /// A failure halts the remaining tasks of the entire run.
    AbortRun,
    /// A failure is recorded and the run continues with the next task.
    IgnoreAndContinue,
}

/// Overall status of a run report.
#[derive(Clone, Copy, Debug, PartialEq, Eq, Structural)]
pub enum RunStatus {
    /// Every attempted task succeeded or was skipped.
    Success,
    /// At least one task failed, but no task was left unattempted because of it.
    PartialFailure,
    /// A failure with the abort policy halted the run while tasks were still pending.
    Aborted,
}

/// One declarative operation, from the closed set of built-in kinds.
#[derive(Clone, Debug)]
pub enum Operation {
    /// Ensure that a file holds exactly the given contents.
    EnsureFile { path: String, content: String },
    /// Ensure that a service is running (or stopped).
    EnsureService { name: String, running: bool },
    /// Ensure that a package is installed.
    EnsurePackage { name: String },
    /// Run a command; a command is not a convergent operation and reports a
    /// change whenever it succeeds.
    RunCommand { command: String },
}

/// Guard condition of a task, evaluated over the play's variables and the
/// results registered by earlier tasks of the same run.
#[derive(Clone, Debug)]
pub enum Guard {
    /// No condition: the task always runs.
    Always,
    /// The named play variable is bound and equals the given value.
    VarEquals { key: String, value: String },
    /// The named play variable is bound, non-empty and not the word "false".
    VarTruthy { key: String },
    /// An earlier task registered its outcome under this name and it reported
    /// a change.
    ResultChanged { name: String },
}

/// One declarative, idempotent unit of desired system state.
#[derive(Clone, Debug)]
pub struct Task {
    /// Name used for reporting.
    pub name: String,
    /// The operation to apply.
    pub op: Operation,
    /// Guard evaluated before any side effect.
    pub guard: Guard,
    /// What a failure here does to the rest of the run.
    pub policy: FailurePolicy,
    /// Optional name under which the task's outcome is bound for later guards.
    pub register: Option<String>,
}

/// A named group of tasks sharing a variable scope; tasks execute strictly in
/// declaration order.
#[derive(Clone, Debug)]
pub struct Play {
    pub name: String,
    /// Variables visible to the guards of this play's tasks.
    pub vars: Vec<(String, String)>,
    pub tasks: Vec<Task>,
}

/// Outcome of one task.
#[derive(Clone, Debug, PartialEq)]
pub enum TaskOutcome {
    /// The operation handler ran; `changed` says whether it had to mutate
    /// state, and `output` is the captured output of a command-like
    /// operation (empty for the convergent ones).
    Applied { changed: bool, output: String },
    /// The guard was false; the handler was never invoked.
    Skipped { reason: String },
    /// The operation handler reported a failure.
    Failed { error: String },
}

/// Outcome of one task, paired with the task's name for reporting.
#[derive(Clone, Debug, PartialEq)]
pub struct TaskReport {
    pub task: String,
    pub outcome: TaskOutcome,
}

/// Ordered sequence of task outcomes across all plays of a single run, plus
/// the overall status. Append-only history once produced.
#[derive(Clone, Debug, PartialEq)]
pub struct RunReport {
    pub outcomes: Vec<TaskReport>,
    pub status: RunStatus,
}

/// Mathematical view of a task outcome.
pub ghost enum OutcomeV {
    Applied { changed: bool, output: Seq<char> },
    Skipped { reason: Seq<char> },
    Failed { error: Seq<char> },
}

/// Mathematical view of a task report.
pub ghost struct TaskReportV {
    pub task: Seq<char>,
    pub outcome: OutcomeV,
}

/// Mathematical view of a run report.
pub ghost struct RunReportV {
    pub outcomes: Seq<TaskReportV>,
    pub status: RunStatus,
}

impl View for TaskOutcome {
    type V = OutcomeV;

    open spec fn view(&self) -> OutcomeV {
        match self {
            TaskOutcome::Applied { changed, output } => OutcomeV::Applied {
                changed: *changed,
                output: output@,
            },
            TaskOutcome::Skipped { reason } => OutcomeV::Skipped { reason: reason@ },
            TaskOutcome::Failed { error } => OutcomeV::Failed { error: error@ },
        }
    }
}

impl DeepView for TaskOutcome {
    type V = OutcomeV;

    open spec fn deep_view(&self) -> OutcomeV {
        self.view()
    }
}

impl View for TaskReport {
    type V = TaskReportV;

    open spec fn view(&self) -> TaskReportV {
        TaskReportV { task: self.task@, outcome: self.outcome@ }
    }
}

impl DeepView for TaskReport {
    type V = TaskReportV;

    open spec fn deep_view(&self) -> TaskReportV {
        self.view()
    }
}

impl View for RunReport {
    type V = RunReportV;

    open spec fn view(&self) -> RunReportV {
        RunReportV { outcomes: self.outcomes.deep_view(), status: self.status }
    }
}

impl DeepView for RunReport {
    type V = RunReportV;

    open spec fn deep_view(&self) -> RunReportV {
        self.view()
    }
}

/// Value of the last binding for `key`, if any: a later binding shadows an
/// earlier one.
pub open spec fn assoc_find<V>(s: Seq<(Seq<char>, V)>, key: Seq<char>) -> Option<V>
    decreases s.len(),
{
    if s.len() == 0 {
        None
    } else if s.last().0 == key {
        Some(s.last().1)
    } else {
        assoc_find(s.drop_last(), key)
    }
}

/// Whether `x` occurs in `s`.
pub open spec fn seq_has_str(s: Seq<Seq<char>>, x: Seq<char>) -> bool {
    exists|i: int| 0 <= i < s.len() && s[i] == x
}

/// Looks up the last binding for `key` in a string-valued scope.
pub fn find_var(vars: &Vec<(String, String)>, key: &String) -> (r: Option<String>)
    ensures
        match r {
            Some(v) => assoc_find(vars.deep_view(), key@) == Some(v@),
            None => assoc_find(vars.deep_view(), key@) is None,
        },
{
    let ghost full = vars.deep_view();
    let mut i: usize = vars.len();
    proof {
        assert(full.take(vars.len() as int) =~= full);
    }
    while i > 0
        invariant
            i <= vars.len(),
            full == vars.deep_view(),
            assoc_find(full, key@) == assoc_find(full.take(i as int), key@),
        decreases i,
    {
        let j = i - 1;
        proof {
            assert(full.take(i as int).last() == full[j as int]);
            assert(full.take(i as int).drop_last() =~= full.take(j as int));
        }
        if vars[j].0 == *key {
            return Some(vars[j].1.clone());
        }
        i = j;
    }
    proof {
        assert(full.take(0) =~= Seq::<(Seq<char>, Seq<char>)>::empty());
    }
    None
}

/// Looks up the last binding for `key` in a boolean-valued scope.
pub fn find_flag(results: &Vec<(String, bool)>, key: &String) -> (r: Option<bool>)
    ensures
        match r {
            Some(v) => assoc_find(results.deep_view(), key@) == Some(v),
            None => assoc_find(results.deep_view(), key@) is None,
        },
{
    let ghost full = results.deep_view();
    let mut i: usize = results.len();
    proof {
        assert(full.take(results.len() as int) =~= full);
    }
    while i > 0
        invariant
            i <= results.len(),
            full == results.deep_view(),
            assoc_find(full, key@) == assoc_find(full.take(i as int), key@),
        decreases i,
    {
        let j = i - 1;
        proof {
            assert(full.take(i as int).last() == full[j as int]);
            assert(full.take(i as int).drop_last() =~= full.take(j as int));
        }
        if results[j].0 == *key {
            return Some(results[j].1);
        }
        i = j;
    }
    proof {
        assert(full.take(0) =~= Seq::<(Seq<char>, bool)>::empty());
    }
    None
}

/// Whether `x` occurs among `items`.
pub fn contains_str(items: &Vec<String>, x: &String) -> (b: bool)
    ensures
        b == seq_has_str(items.deep_view(), x@),
{
    let ghost full = items.deep_view();
    let mut i: usize = 0;
    while i < items.len()
        invariant
            i <= items.len(),
            full == items.deep_view(),
            forall|j: int| 0 <= j < i ==> full[j] != x@,
        decreases items.len() - i,
    {
        if items[i] == *x {
            assert(full[i as int] == x@);
            return true;
        }
        i = i + 1;
    }
    false
}

} // verus!
