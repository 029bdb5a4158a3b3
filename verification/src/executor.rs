//! The task executor: walks a playbook's plays and tasks strictly in
//! declaration order, evaluates guards, applies operations, enforces the
//! per-task failure policy and produces a run report.
//!
//! The executable functions mirror the recursive specification functions
//! (`run_task`, `run_tasks`, `run_plays`, `run_playbook`) clause for clause,
//! and each is proved equal to them. The laws at the end of the module state
//! the guarantees the executor gives: order preservation, guard skipping,
//! abort semantics and ignore-and-continue semantics.

use vstd::prelude::*;
use crate::model::{
    assoc_find, find_flag, find_var, FailurePolicy, Guard, OutcomeV, Play, RunReport, RunReportV,
    RunStatus, Task, TaskReport, TaskReportV, TaskOutcome,
};
use crate::state::{apply_op, apply_operation, StateV, SystemState};

verus! {

/// Reason recorded when a guard is false.
pub open spec fn skip_guard_false() -> Seq<char> {
    "guard is false"@
}

/// Whether a guard holds under the play's variables and the results
/// registered by earlier tasks.
pub open spec fn guard_holds(
    g: Guard,
    vars: Seq<(Seq<char>, Seq<char>)>,
    results: Seq<(Seq<char>, bool)>,
) -> bool {
    match g {
        Guard::Always => true,
        Guard::VarEquals { key, value } => assoc_find(vars, key@) == Some(value@),
        Guard::VarTruthy { key } => match assoc_find(vars, key@) {
            Some(v) => v.len() != 0 && v != "false"@,
            None => false,
        },
        Guard::ResultChanged { name } => assoc_find(results, name@) == Some(true),
    }
}

/// Evaluates a guard, verified against `guard_holds`.
pub fn eval_guard(
    g: &Guard,
    vars: &Vec<(String, String)>,
    results: &Vec<(String, bool)>,
) -> (b: bool)
    ensures
        b == guard_holds(*g, vars.deep_view(), results.deep_view()),
{
    match g {
        Guard::Always => true,
        Guard::VarEquals { key, value } => {
            match find_var(vars, key) {
                Some(v) => v == *value,
                None => false,
            }
        },
        Guard::VarTruthy { key } => {
            match find_var(vars, key) {
                Some(v) => {
                    let falseword = "false".to_string();
                    v.as_str().unicode_len() != 0 && !(v == falseword)
                },
                None => false,
            }
        },
        Guard::ResultChanged { name } => {
            match find_flag(results, name) {
                Some(c) => c,
                None => false,
            }
        },
    }
}

/// Result of one task: the state and registered results after it, its report,
/// and whether it failed.
pub ghost struct TaskStep {
    pub st: StateV,
    pub results: Seq<(Seq<char>, bool)>,
    pub report: TaskReportV,
    pub failed: bool,
}

/// What one task does: evaluate the guard before any side effect; on a false
/// guard record a skip and touch nothing; otherwise apply the operation, and
/// on success bind the outcome under the task's register name, if any.
pub open spec fn run_task(
    st: StateV,
    vars: Seq<(Seq<char>, Seq<char>)>,
    results: Seq<(Seq<char>, bool)>,
    t: Task,
) -> TaskStep {
    if !guard_holds(t.guard, vars, results) {
        TaskStep {
            st,
            results,
            report: TaskReportV {
                task: t.name@,
                outcome: OutcomeV::Skipped { reason: skip_guard_false() },
            },
            failed: false,
        }
    } else {
        let eff = apply_op(st, t.op);
        match eff.error {
            None => TaskStep {
                st: eff.st,
                results: match t.register {
                    Some(r) => results.push((r@, eff.changed)),
                    None => results,
                },
                report: TaskReportV {
                    task: t.name@,
                    outcome: OutcomeV::Applied { changed: eff.changed, output: eff.output },
                },
                failed: false,
            },
            Some(e) => TaskStep {
                st: eff.st,
                results,
                report: TaskReportV { task: t.name@, outcome: OutcomeV::Failed { error: e } },
                failed: true,
            },
        }
    }
}

/// Executes one task, verified against `run_task`.
fn exec_task(
    st: SystemState,
    vars: &Vec<(String, String)>,
    results: Vec<(String, bool)>,
    t: &Task,
) -> (r: (SystemState, Vec<(String, bool)>, TaskReport, bool))
    ensures
        ({
            let step = run_task(st@, vars.deep_view(), results.deep_view(), *t);
            &&& r.0@ == step.st
            &&& r.1.deep_view() == step.results
            &&& r.2@ == step.report
            &&& r.3 == step.failed
        }),
{
    if !eval_guard(&t.guard, vars, &results) {
        let report = TaskReport {
            task: t.name.clone(),
            outcome: TaskOutcome::Skipped { reason: "guard is false".to_string() },
        };
        (st, results, report, false)
    } else {
        let (st1, changed, error, output) = apply_operation(st, &t.op);
        match error {
            None => {
                let mut results2 = results;
                match &t.register {
                    Some(name) => {
                        let ghost before = results2.deep_view();
                        results2.push((name.clone(), changed));
                        proof {
                            assert(results2.deep_view() =~= before.push((name@, changed)));
                        }
                    },
                    None => {},
                }
                let report = TaskReport {
                    task: t.name.clone(),
                    outcome: TaskOutcome::Applied { changed, output },
                };
                (st1, results2, report, false)
            },
            Some(e) => {
                let report = TaskReport {
                    task: t.name.clone(),
                    outcome: TaskOutcome::Failed { error: e },
                };
                (st1, results, report, true)
            },
        }
    }
}

/// Result of a sequence of tasks (or of whole plays): the state and
/// registered results after them, their reports in order, whether a failure
/// with the abort policy halted the run, and — if so — whether tasks were
/// still pending at that point.
pub ghost struct TasksRun {
    pub st: StateV,
    pub results: Seq<(Seq<char>, bool)>,
    pub reports: Seq<TaskReportV>,
    pub aborted: bool,
    pub pending: bool,
}

/// What a sequence of tasks does, strictly in declaration order. A failure
/// under the abort policy stops immediately; under ignore-and-continue the
/// next task is attempted.
pub open spec fn run_tasks(
    st: StateV,
    vars: Seq<(Seq<char>, Seq<char>)>,
    results: Seq<(Seq<char>, bool)>,
    tasks: Seq<Task>,
) -> TasksRun
    decreases tasks.len(),
{
    if tasks.len() == 0 {
        TasksRun { st, results, reports: Seq::empty(), aborted: false, pending: false }
    } else {
        let step = run_task(st, vars, results, tasks[0]);
        if step.failed && tasks[0].policy == FailurePolicy::AbortRun {
            TasksRun {
                st: step.st,
                results: step.results,
                reports: seq![step.report],
                aborted: true,
                pending: tasks.len() > 1,
            }
        } else {
            let rest = run_tasks(step.st, vars, step.results, tasks.drop_first());
            TasksRun {
                st: rest.st,
                results: rest.results,
                reports: seq![step.report] + rest.reports,
                aborted: rest.aborted,
                pending: rest.pending,
            }
        }
    }
}

/// Executes the tasks from index `i` on, verified against `run_tasks`.
fn exec_tasks(
    st: SystemState,
    vars: &Vec<(String, String)>,
    results: Vec<(String, bool)>,
    tasks: &Vec<Task>,
    i: usize,
) -> (r: (SystemState, Vec<(String, bool)>, Vec<TaskReport>, bool, bool))
    requires
        i <= tasks.len(),
    ensures
        ({
            let run = run_tasks(st@, vars.deep_view(), results.deep_view(), tasks@.skip(i as int));
            &&& r.0@ == run.st
            &&& r.1.deep_view() == run.results
            &&& r.2.deep_view() == run.reports
            &&& r.3 == run.aborted
            &&& r.4 == run.pending
        }),
    decreases tasks.len() - i,
{
    if i == tasks.len() {
        let reports: Vec<TaskReport> = Vec::new();
        proof {
            assert(tasks@.skip(i as int) =~= Seq::<Task>::empty());
            assert(reports.deep_view() =~= Seq::<TaskReportV>::empty());
        }
        (st, results, reports, false, false)
    } else {
        proof {
            assert(tasks@.skip(i as int)[0] == tasks@[i as int]);
            assert(tasks@.skip(i as int).drop_first() =~= tasks@.skip(i as int + 1));
        }
        let (st1, res1, rep, failed) = exec_task(st, vars, results, &tasks[i]);
        if failed && tasks[i].policy == FailurePolicy::AbortRun {
            let mut reports: Vec<TaskReport> = Vec::new();
            reports.push(rep);
            proof {
                let run = run_tasks(
                    st@,
                    vars.deep_view(),
                    results.deep_view(),
                    tasks@.skip(i as int),
                );
                assert(reports.deep_view() =~= run.reports);
            }
            (st1, res1, reports, true, i + 1 < tasks.len())
        } else {
            let (st2, res2, mut rest, aborted, pending) = exec_tasks(st1, vars, res1, tasks, i + 1);
            let mut reports: Vec<TaskReport> = Vec::new();
            reports.push(rep);
            reports.append(&mut rest);
            proof {
                let run = run_tasks(
                    st@,
                    vars.deep_view(),
                    results.deep_view(),
                    tasks@.skip(i as int),
                );
                assert(reports.deep_view() =~= run.reports);
            }
            (st2, res2, reports, aborted, pending)
        }
    }
}

/// Total number of tasks across a sequence of plays.
pub open spec fn total_tasks(plays: Seq<Play>) -> nat
    decreases plays.len(),
{
    if plays.len() == 0 {
        0
    } else {
        plays[0].tasks@.len() + total_tasks(plays.drop_first())
    }
}

/// Whether any play from index `i` on still has a task.
fn any_tasks_from(plays: &Vec<Play>, i: usize) -> (b: bool)
    requires
        i <= plays.len(),
    ensures
        b == (total_tasks(plays@.skip(i as int)) > 0),
    decreases plays.len() - i,
{
    if i == plays.len() {
        proof {
            assert(plays@.skip(i as int) =~= Seq::<Play>::empty());
        }
        false
    } else {
        proof {
            assert(plays@.skip(i as int)[0] == plays@[i as int]);
            assert(plays@.skip(i as int).drop_first() =~= plays@.skip(i as int + 1));
        }
        if plays[i].tasks.len() > 0 {
            true
        } else {
            any_tasks_from(plays, i + 1)
        }
    }
}

/// What a sequence of plays does: each play's tasks run in order under the
/// play's variables; registered results persist across plays within the run;
/// an abort halts the remaining tasks of the entire run, and later plays'
/// tasks count as pending.
pub open spec fn run_plays(
    st: StateV,
    results: Seq<(Seq<char>, bool)>,
    plays: Seq<Play>,
) -> TasksRun
    decreases plays.len(),
{
    if plays.len() == 0 {
        TasksRun { st, results, reports: Seq::empty(), aborted: false, pending: false }
    } else {
        let first = run_tasks(st, plays[0].vars.deep_view(), results, plays[0].tasks@);
        if first.aborted {
            TasksRun {
                st: first.st,
                results: first.results,
                reports: first.reports,
                aborted: true,
                pending: first.pending || total_tasks(plays.drop_first()) > 0,
            }
        } else {
            let rest = run_plays(first.st, first.results, plays.drop_first());
            TasksRun {
                st: rest.st,
                results: rest.results,
                reports: first.reports + rest.reports,
                aborted: rest.aborted,
                pending: rest.pending,
            }
        }
    }
}

/// Executes the plays from index `i` on, verified against `run_plays`.
fn exec_plays(
    st: SystemState,
    results: Vec<(String, bool)>,
    plays: &Vec<Play>,
    i: usize,
) -> (r: (SystemState, Vec<(String, bool)>, Vec<TaskReport>, bool, bool))
    requires
        i <= plays.len(),
    ensures
        ({
            let run = run_plays(st@, results.deep_view(), plays@.skip(i as int));
            &&& r.0@ == run.st
            &&& r.1.deep_view() == run.results
            &&& r.2.deep_view() == run.reports
            &&& r.3 == run.aborted
            &&& r.4 == run.pending
        }),
    decreases plays.len() - i,
{
    if i == plays.len() {
        let reports: Vec<TaskReport> = Vec::new();
        proof {
            assert(plays@.skip(i as int) =~= Seq::<Play>::empty());
            assert(reports.deep_view() =~= Seq::<TaskReportV>::empty());
        }
        (st, results, reports, false, false)
    } else {
        proof {
            assert(plays@.skip(i as int)[0] == plays@[i as int]);
            assert(plays@.skip(i as int).drop_first() =~= plays@.skip(i as int + 1));
        }
        let play = &plays[i];
        proof {
            assert(play.tasks@.skip(0) =~= play.tasks@);
        }
        let (st1, res1, reports1, aborted, pending) = exec_tasks(st, &play.vars, results, &play.tasks, 0);
        if aborted {
            let more = any_tasks_from(plays, i + 1);
            (st1, res1, reports1, true, pending || more)
        } else {
            let (st2, res2, mut rest, ab2, pend2) = exec_plays(st1, res1, plays, i + 1);
            let mut reports = reports1;
            reports.append(&mut rest);
            proof {
                let run = run_plays(st@, results.deep_view(), plays@.skip(i as int));
                assert(reports.deep_view() =~= run.reports);
            }
            (st2, res2, reports, ab2, pend2)
        }
    }
}

/// Whether any outcome in the report is a failure.
pub open spec fn any_failed(reports: Seq<TaskReportV>) -> bool {
    exists|i: int| 0 <= i < reports.len() && reports[i].outcome is Failed
}

/// Scans a report for a failed outcome, verified against `any_failed`.
fn any_failed_exec(reports: &Vec<TaskReport>) -> (b: bool)
    ensures
        b == any_failed(reports.deep_view()),
{
    let ghost full = reports.deep_view();
    let mut i: usize = 0;
    while i < reports.len()
        invariant
            i <= reports.len(),
            full == reports.deep_view(),
            forall|j: int| 0 <= j < i ==> !(full[j].outcome is Failed),
        decreases reports.len() - i,
    {
        let failed = match &reports[i].outcome {
            TaskOutcome::Failed { .. } => true,
            _ => false,
        };
        if failed {
            assert(full[i as int].outcome is Failed);
            return true;
        }
        i = i + 1;
    }
    false
}

/// Overall status of a run: `Aborted` when an abort halted the run while
/// tasks were still pending; otherwise `PartialFailure` when any task failed;
/// otherwise `Success`.
pub open spec fn report_status(reports: Seq<TaskReportV>, aborted: bool, pending: bool) -> RunStatus {
    if aborted && pending {
        RunStatus::Aborted
    } else if any_failed(reports) {
        RunStatus::PartialFailure
    } else {
        RunStatus::Success
    }
}

/// What executing a whole playbook does: the run report and the state after
/// the run.
pub open spec fn run_playbook(plays: Seq<Play>, st: StateV) -> (RunReportV, StateV) {
    let run = run_plays(st, Seq::empty(), plays);
    (
        RunReportV {
            outcomes: run.reports,
            status: report_status(run.reports, run.aborted, run.pending),
        },
        run.st,
    )
}

/// Executes a playbook against the system state and produces its run report,
/// verified against `run_playbook`. An empty playbook yields an empty report
/// with status `Success`.
pub fn execute(plays: &Vec<Play>, st: SystemState) -> (r: (RunReport, SystemState))
    ensures
        r.0@ == run_playbook(plays@, st@).0,
        r.1@ == run_playbook(plays@, st@).1,
{
    let results: Vec<(String, bool)> = Vec::new();
    proof {
        assert(plays@.skip(0) =~= plays@);
        assert(results.deep_view() =~= Seq::<(Seq<char>, bool)>::empty());
    }
    let (st2, _results, reports, aborted, pending) = exec_plays(st, results, plays, 0);
    let failed = any_failed_exec(&reports);
    let status = if aborted && pending {
        RunStatus::Aborted
    } else if failed {
        RunStatus::PartialFailure
    } else {
        RunStatus::Success
    };
    (RunReport { outcomes: reports, status }, st2)
}

/// Names of a sequence of tasks, in declaration order.
pub open spec fn task_names(tasks: Seq<Task>) -> Seq<Seq<char>> {
    tasks.map_values(|t: Task| t.name@)
}

/// Names of all tasks of a sequence of plays, in declaration order.
pub open spec fn plays_task_names(plays: Seq<Play>) -> Seq<Seq<char>>
    decreases plays.len(),
{
    if plays.len() == 0 {
        Seq::empty()
    } else {
        task_names(plays[0].tasks@) + plays_task_names(plays.drop_first())
    }
}

/// Task names a report speaks of, in report order.
pub open spec fn report_names(reports: Seq<TaskReportV>) -> Seq<Seq<char>> {
    reports.map_values(|r: TaskReportV| r.task)
}

/// Order preservation within one task list: the outcomes name a prefix of the
/// tasks in exact declaration order, and when no abort occurs every task
/// contributes exactly one outcome.
pub proof fn lemma_tasks_order(
    st: StateV,
    vars: Seq<(Seq<char>, Seq<char>)>,
    results: Seq<(Seq<char>, bool)>,
    tasks: Seq<Task>,
)
    ensures
        ({
            let run = run_tasks(st, vars, results, tasks);
            &&& run.reports.len() <= tasks.len()
            &&& report_names(run.reports) == task_names(tasks).take(run.reports.len() as int)
            &&& (!run.aborted ==> run.reports.len() == tasks.len())
        }),
    decreases tasks.len(),
{
    let run = run_tasks(st, vars, results, tasks);
    if tasks.len() == 0 {
        assert(report_names(run.reports) =~= task_names(tasks).take(0));
    } else {
        let step = run_task(st, vars, results, tasks[0]);
        assert(step.report.task == tasks[0].name@);
        if step.failed && tasks[0].policy == FailurePolicy::AbortRun {
            assert(report_names(run.reports) =~= task_names(tasks).take(1));
        } else {
            lemma_tasks_order(step.st, vars, step.results, tasks.drop_first());
            let rest = run_tasks(step.st, vars, step.results, tasks.drop_first());
            assert(run.reports == seq![step.report] + rest.reports);
            assert forall|k: int| 0 <= k < run.reports.len() implies report_names(run.reports)[k]
                == task_names(tasks).take(run.reports.len() as int)[k] by {
                if k > 0 {
                    assert(report_names(rest.reports)[k - 1] == task_names(tasks.drop_first()).take(
                        rest.reports.len() as int,
                    )[k - 1]);
                }
            }
            assert(report_names(run.reports) =~= task_names(tasks).take(run.reports.len() as int));
        }
    }
}

/// Order preservation across a whole run: the run report's outcomes name a
/// prefix of the playbook's tasks in exact declaration order (plays in
/// declaration order, each play's tasks in declaration order), and when no
/// abort occurs the report holds exactly one outcome per task.
pub proof fn lemma_order_preservation(
    st: StateV,
    results: Seq<(Seq<char>, bool)>,
    plays: Seq<Play>,
)
    ensures
        ({
            let run = run_plays(st, results, plays);
            &&& run.reports.len() <= plays_task_names(plays).len()
            &&& report_names(run.reports) == plays_task_names(plays).take(run.reports.len() as int)
            &&& (!run.aborted ==> run.reports.len() == plays_task_names(plays).len())
        }),
    decreases plays.len(),
{
    let run = run_plays(st, results, plays);
    if plays.len() == 0 {
        assert(report_names(run.reports) =~= plays_task_names(plays).take(0));
    } else {
        let vars0 = plays[0].vars.deep_view();
        let tasks0 = plays[0].tasks@;
        let first = run_tasks(st, vars0, results, tasks0);
        lemma_tasks_order(st, vars0, results, tasks0);
        if first.aborted {
            let k = first.reports.len() as int;
            assert(plays_task_names(plays).take(k) =~= task_names(tasks0).take(k));
        } else {
            lemma_order_preservation(first.st, first.results, plays.drop_first());
            let rest = run_plays(first.st, first.results, plays.drop_first());
            let n0 = tasks0.len() as int;
            let k = rest.reports.len() as int;
            assert(task_names(tasks0).take(n0) =~= task_names(tasks0));
            assert(run.reports == first.reports + rest.reports);
            assert forall|j: int| 0 <= j < run.reports.len() implies report_names(run.reports)[j]
                == plays_task_names(plays).take(run.reports.len() as int)[j] by {
                if j < n0 {
                    assert(report_names(first.reports)[j] == task_names(tasks0)[j]);
                } else {
                    assert(report_names(rest.reports)[j - n0] == plays_task_names(
                        plays.drop_first(),
                    ).take(k)[j - n0]);
                }
            }
            assert(report_names(run.reports) =~= plays_task_names(plays).take(
                run.reports.len() as int,
            ));
        }
    }
}

/// Guard skip: a task whose guard is false contributes a `Skipped` outcome
/// and its handler is never invoked — the state and the registered results
/// are untouched and the task does not count as failed, regardless of its
/// failure policy.
pub proof fn lemma_guard_skip(
    st: StateV,
    vars: Seq<(Seq<char>, Seq<char>)>,
    results: Seq<(Seq<char>, bool)>,
    t: Task,
)
    requires
        !guard_holds(t.guard, vars, results),
    ensures
        ({
            let step = run_task(st, vars, results, t);
            &&& step.st == st
            &&& step.results == results
            &&& !step.failed
            &&& step.report == (TaskReportV {
                task: t.name@,
                outcome: OutcomeV::Skipped { reason: skip_guard_false() },
            })
        }),
{
}

/// Abort semantics: in a playbook of one play with tasks `[t1, t2, t3]`,
/// where `t1` succeeds and `t2` fails under the abort policy, the run report
/// holds outcomes for `t1` and `t2` only, its status is `Aborted`, and `t3`'s
/// handler is never invoked: the state after the run is exactly the state
/// after `t1`.
pub proof fn lemma_abort_semantics(st: StateV, plays: Seq<Play>, t1: Task, t2: Task, t3: Task)
    requires
        plays.len() == 1,
        plays[0].tasks@ == seq![t1, t2, t3],
        t1.guard is Always,
        t2.guard is Always,
        apply_op(st, t1.op).error is None,
        apply_op(apply_op(st, t1.op).st, t2.op).error is Some,
        t2.policy == FailurePolicy::AbortRun,
    ensures
        ({
            let r = run_playbook(plays, st);
            &&& r.0.outcomes.len() == 2
            &&& r.0.outcomes[0] == (TaskReportV {
                task: t1.name@,
                outcome: OutcomeV::Applied {
                    changed: apply_op(st, t1.op).changed,
                    output: apply_op(st, t1.op).output,
                },
            })
            &&& r.0.outcomes[1].task == t2.name@
            &&& r.0.outcomes[1].outcome is Failed
            &&& r.0.status == RunStatus::Aborted
            &&& r.1 == apply_op(st, t1.op).st
        }),
{
    let vars0 = plays[0].vars.deep_view();
    let tasks = plays[0].tasks@;
    let step1 = run_task(st, vars0, Seq::empty(), t1);
    let eff1 = apply_op(st, t1.op);
    assert(tasks[0] == t1);
    assert(tasks.drop_first() =~= seq![t2, t3]);
    let step2 = run_task(eff1.st, vars0, step1.results, t2);
    crate::state::lemma_failed_op_no_effect(eff1.st, t2.op);
    let run23 = run_tasks(eff1.st, vars0, step1.results, seq![t2, t3]);
    assert(seq![t2, t3][0] == t2);
    assert(run23.reports == seq![step2.report] && run23.aborted && run23.pending);
    let run = run_tasks(st, vars0, Seq::empty(), tasks);
    assert(run.reports == seq![step1.report] + run23.reports);
    assert(run.reports.len() == 2);
    assert(run.reports[0] == step1.report);
    assert(run.reports[1] == step2.report);
    assert(run.aborted && run.pending);
    let whole = run_plays(st, Seq::empty(), plays);
    assert(whole.reports == run.reports && whole.aborted && whole.pending && whole.st == run.st);
}

/// Ignore-and-continue semantics: the same shape with `t2` under the
/// ignore-and-continue policy yields outcomes for all three tasks — applied,
/// failed, applied — and overall status `PartialFailure`; `t2`'s failure has
/// no effect on the state `t3` sees.
pub proof fn lemma_ignore_and_continue(st: StateV, plays: Seq<Play>, t1: Task, t2: Task, t3: Task)
    requires
        plays.len() == 1,
        plays[0].tasks@ == seq![t1, t2, t3],
        t1.guard is Always,
        t2.guard is Always,
        t3.guard is Always,
        apply_op(st, t1.op).error is None,
        apply_op(apply_op(st, t1.op).st, t2.op).error is Some,
        t2.policy == FailurePolicy::IgnoreAndContinue,
        apply_op(apply_op(st, t1.op).st, t3.op).error is None,
    ensures
        ({
            let r = run_playbook(plays, st);
            &&& r.0.outcomes.len() == 3
            &&& r.0.outcomes[0] == (TaskReportV {
                task: t1.name@,
                outcome: OutcomeV::Applied {
                    changed: apply_op(st, t1.op).changed,
                    output: apply_op(st, t1.op).output,
                },
            })
            &&& r.0.outcomes[1].task == t2.name@
            &&& r.0.outcomes[1].outcome is Failed
            &&& r.0.outcomes[2] == (TaskReportV {
                task: t3.name@,
                outcome: OutcomeV::Applied {
                    changed: apply_op(apply_op(st, t1.op).st, t3.op).changed,
                    output: apply_op(apply_op(st, t1.op).st, t3.op).output,
                },
            })
            &&& r.0.status == RunStatus::PartialFailure
            &&& r.1 == apply_op(apply_op(st, t1.op).st, t3.op).st
        }),
{
    let vars0 = plays[0].vars.deep_view();
    let tasks = plays[0].tasks@;
    let step1 = run_task(st, vars0, Seq::empty(), t1);
    let eff1 = apply_op(st, t1.op);
    assert(tasks[0] == t1);
    assert(tasks.drop_first() =~= seq![t2, t3]);
    assert(seq![t2, t3].drop_first() =~= seq![t3]);
    assert(seq![t3].drop_first() =~= Seq::<Task>::empty());
    let step2 = run_task(eff1.st, vars0, step1.results, t2);
    crate::state::lemma_failed_op_no_effect(eff1.st, t2.op);
    assert(step2.st == eff1.st);
    let step3 = run_task(eff1.st, vars0, step2.results, t3);
    let run_end = run_tasks(step3.st, vars0, step3.results, Seq::<Task>::empty());
    assert(run_end.reports == Seq::<TaskReportV>::empty() && !run_end.aborted && !run_end.pending);
    let run3 = run_tasks(step2.st, vars0, step2.results, seq![t3]);
    assert(seq![t3][0] == t3);
    assert(run3.reports == seq![step3.report] + run_end.reports && !run3.aborted && !run3.pending);
    let run23 = run_tasks(eff1.st, vars0, step1.results, seq![t2, t3]);
    assert(seq![t2, t3][0] == t2);
    assert(run23.reports == seq![step2.report] + run3.reports && !run23.aborted);
    let run = run_tasks(st, vars0, Seq::empty(), tasks);
    assert(run.reports == seq![step1.report] + run23.reports);
    assert(run.reports.len() == 3);
    assert(run.reports[0] == step1.report);
    assert(run.reports[1] == step2.report);
    assert(run.reports[2] == step3.report);
    assert(!run.aborted);
    let run_no_plays = run_plays(run.st, run.results, Seq::<Play>::empty());
    assert(run_no_plays.reports == Seq::<TaskReportV>::empty() && !run_no_plays.aborted
        && !run_no_plays.pending && run_no_plays.st == run.st);
    assert(plays.drop_first() =~= Seq::<Play>::empty());
    let whole = run_plays(st, Seq::empty(), plays);
    assert(whole.reports == run.reports + Seq::<TaskReportV>::empty());
    assert(whole.reports =~= run.reports);
    assert(whole.reports[1].outcome is Failed);
    assert(any_failed(whole.reports));
}

} // verus!
