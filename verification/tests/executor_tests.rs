use xconfig_agent::executor::execute;
use xconfig_agent::model::{
    FailurePolicy, Guard, Operation, Play, RunStatus, Task, TaskOutcome,
};
use xconfig_agent::state::SystemState;

fn task(name: &str, op: Operation, guard: Guard, policy: FailurePolicy) -> Task {
    Task { name: name.to_string(), op, guard, policy, register: None }
}

fn ensure_file(path: &str, content: &str) -> Operation {
    Operation::EnsureFile { path: path.to_string(), content: content.to_string() }
}

fn one_play(tasks: Vec<Task>) -> Vec<Play> {
    vec![Play { name: "play".to_string(), vars: Vec::new(), tasks }]
}

fn play_with_vars(vars: Vec<(&str, &str)>, tasks: Vec<Task>) -> Vec<Play> {
    let vars = vars
        .into_iter()
        .map(|(k, v)| (k.to_string(), v.to_string()))
        .collect();
    vec![Play { name: "play".to_string(), vars, tasks }]
}

fn base_state() -> SystemState {
    let mut st = SystemState::empty();
    st.available.push("curl".to_string());
    st.commands_ok.push("echo hello".to_string());
    st.command_output.push(("echo hello".to_string(), "hello".to_string()));
    st
}

#[test]
fn idempotence_second_apply_reports_no_change() {
    let plays = one_play(vec![task(
        "write motd",
        ensure_file("/etc/motd", "hello"),
        Guard::Always,
        FailurePolicy::AbortRun,
    )]);
    let (first, st1) = execute(&plays, base_state());
    assert_eq!(first.status, RunStatus::Success);
    assert_eq!(
        first.outcomes[0].outcome,
        TaskOutcome::Applied { changed: true, output: String::new() }
    );
    let (second, _st2) = execute(&plays, st1);
    assert_eq!(second.status, RunStatus::Success);
    assert_eq!(
        second.outcomes[0].outcome,
        TaskOutcome::Applied { changed: false, output: String::new() }
    );
}

#[test]
fn idempotence_of_service_and_package() {
    let plays = one_play(vec![
        task(
            "start sshd",
            Operation::EnsureService { name: "sshd".to_string(), running: true },
            Guard::Always,
            FailurePolicy::AbortRun,
        ),
        task(
            "install curl",
            Operation::EnsurePackage { name: "curl".to_string() },
            Guard::Always,
            FailurePolicy::AbortRun,
        ),
    ]);
    let (first, st1) = execute(&plays, base_state());
    assert_eq!(first.outcomes[0].outcome, TaskOutcome::Applied { changed: true, output: String::new() });
    assert_eq!(first.outcomes[1].outcome, TaskOutcome::Applied { changed: true, output: String::new() });
    let (second, _) = execute(&plays, st1);
    assert_eq!(second.outcomes[0].outcome, TaskOutcome::Applied { changed: false, output: String::new() });
    assert_eq!(second.outcomes[1].outcome, TaskOutcome::Applied { changed: false, output: String::new() });
}

#[test]
fn run_command_reports_change_on_every_run() {
    let plays = one_play(vec![task(
        "greet",
        Operation::RunCommand { command: "echo hello".to_string() },
        Guard::Always,
        FailurePolicy::AbortRun,
    )]);
    let expected = TaskOutcome::Applied { changed: true, output: "hello".to_string() };
    let (first, st1) = execute(&plays, base_state());
    assert_eq!(first.outcomes[0].outcome, expected);
    let (second, _) = execute(&plays, st1);
    assert_eq!(second.outcomes[0].outcome, expected);
}

#[test]
fn order_preservation_all_tasks_in_declaration_order() {
    let plays = one_play(vec![
        task("t1", ensure_file("/a", "1"), Guard::Always, FailurePolicy::AbortRun),
        task("t2", ensure_file("/b", "2"), Guard::Always, FailurePolicy::AbortRun),
        task("t3", ensure_file("/c", "3"), Guard::Always, FailurePolicy::AbortRun),
    ]);
    let (report, _) = execute(&plays, base_state());
    let names: Vec<&str> = report.outcomes.iter().map(|o| o.task.as_str()).collect();
    assert_eq!(names, vec!["t1", "t2", "t3"]);
    assert_eq!(report.status, RunStatus::Success);
}

#[test]
fn order_preservation_across_plays() {
    let plays = vec![
        Play {
            name: "one".to_string(),
            vars: Vec::new(),
            tasks: vec![task("t1", ensure_file("/a", "1"), Guard::Always, FailurePolicy::AbortRun)],
        },
        Play {
            name: "two".to_string(),
            vars: Vec::new(),
            tasks: vec![task("t2", ensure_file("/b", "2"), Guard::Always, FailurePolicy::AbortRun)],
        },
    ];
    let (report, _) = execute(&plays, base_state());
    let names: Vec<&str> = report.outcomes.iter().map(|o| o.task.as_str()).collect();
    assert_eq!(names, vec!["t1", "t2"]);
}

#[test]
fn abort_semantics_halts_run_and_skips_pending_tasks() {
    let plays = one_play(vec![
        task("t1", ensure_file("/a", "1"), Guard::Always, FailurePolicy::AbortRun),
        task(
            "t2",
            Operation::RunCommand { command: "does not exist".to_string() },
            Guard::Always,
            FailurePolicy::AbortRun,
        ),
        task("t3", ensure_file("/c", "3"), Guard::Always, FailurePolicy::AbortRun),
    ]);
    let (report, st) = execute(&plays, base_state());
    assert_eq!(report.outcomes.len(), 2);
    assert_eq!(report.outcomes[0].task, "t1");
    assert_eq!(report.outcomes[0].outcome, TaskOutcome::Applied { changed: true, output: String::new() });
    assert_eq!(report.outcomes[1].task, "t2");
    assert_eq!(
        report.outcomes[1].outcome,
        TaskOutcome::Failed { error: "command failed".to_string() }
    );
    assert_eq!(report.status, RunStatus::Aborted);
    // t3's handler never ran: its file is absent from the state.
    assert!(!st.files.iter().any(|(p, _)| p == "/c"));
}

#[test]
fn abort_on_last_task_is_partial_failure() {
    let plays = one_play(vec![
        task("t1", ensure_file("/a", "1"), Guard::Always, FailurePolicy::AbortRun),
        task(
            "t2",
            Operation::RunCommand { command: "does not exist".to_string() },
            Guard::Always,
            FailurePolicy::AbortRun,
        ),
    ]);
    let (report, _) = execute(&plays, base_state());
    assert_eq!(report.outcomes.len(), 2);
    assert_eq!(report.status, RunStatus::PartialFailure);
}

#[test]
fn abort_halts_later_plays_too() {
    let plays = vec![
        Play {
            name: "one".to_string(),
            vars: Vec::new(),
            tasks: vec![task(
                "t1",
                Operation::RunCommand { command: "does not exist".to_string() },
                Guard::Always,
                FailurePolicy::AbortRun,
            )],
        },
        Play {
            name: "two".to_string(),
            vars: Vec::new(),
            tasks: vec![task("t2", ensure_file("/b", "2"), Guard::Always, FailurePolicy::AbortRun)],
        },
    ];
    let (report, st) = execute(&plays, base_state());
    assert_eq!(report.outcomes.len(), 1);
    assert_eq!(report.status, RunStatus::Aborted);
    assert!(st.files.is_empty());
}

#[test]
fn ignore_and_continue_keeps_going() {
    let plays = one_play(vec![
        task("t1", ensure_file("/a", "1"), Guard::Always, FailurePolicy::AbortRun),
        task(
            "t2",
            Operation::RunCommand { command: "does not exist".to_string() },
            Guard::Always,
            FailurePolicy::IgnoreAndContinue,
        ),
        task("t3", ensure_file("/c", "3"), Guard::Always, FailurePolicy::AbortRun),
    ]);
    let (report, st) = execute(&plays, base_state());
    assert_eq!(report.outcomes.len(), 3);
    assert_eq!(report.outcomes[0].outcome, TaskOutcome::Applied { changed: true, output: String::new() });
    assert!(matches!(report.outcomes[1].outcome, TaskOutcome::Failed { .. }));
    assert_eq!(report.outcomes[2].outcome, TaskOutcome::Applied { changed: true, output: String::new() });
    assert_eq!(report.status, RunStatus::PartialFailure);
    assert!(st.files.iter().any(|(p, _)| p == "/c"));
}

#[test]
fn guard_skip_produces_skipped_and_no_side_effect() {
    let plays = play_with_vars(
        vec![("role", "db")],
        vec![
            task(
                "web only",
                ensure_file("/etc/nginx.conf", "server {}"),
                Guard::VarEquals { key: "role".to_string(), value: "web".to_string() },
                FailurePolicy::AbortRun,
            ),
            task("after", ensure_file("/a", "1"), Guard::Always, FailurePolicy::AbortRun),
        ],
    );
    let (report, st) = execute(&plays, base_state());
    assert_eq!(report.outcomes.len(), 2);
    assert_eq!(
        report.outcomes[0].outcome,
        TaskOutcome::Skipped { reason: "guard is false".to_string() }
    );
    assert_eq!(report.outcomes[1].outcome, TaskOutcome::Applied { changed: true, output: String::new() });
    assert_eq!(report.status, RunStatus::Success);
    assert!(!st.files.iter().any(|(p, _)| p == "/etc/nginx.conf"));
}

#[test]
fn guard_var_equals_true_runs_task() {
    let plays = play_with_vars(
        vec![("role", "web")],
        vec![task(
            "web only",
            ensure_file("/etc/nginx.conf", "server {}"),
            Guard::VarEquals { key: "role".to_string(), value: "web".to_string() },
            FailurePolicy::AbortRun,
        )],
    );
    let (report, _) = execute(&plays, base_state());
    assert_eq!(report.outcomes[0].outcome, TaskOutcome::Applied { changed: true, output: String::new() });
}

#[test]
fn guard_var_truthy() {
    let plays = play_with_vars(
        vec![("on", "yes"), ("off", "false"), ("blank", "")],
        vec![
            task(
                "truthy",
                ensure_file("/a", "1"),
                Guard::VarTruthy { key: "on".to_string() },
                FailurePolicy::AbortRun,
            ),
            task(
                "false word",
                ensure_file("/b", "2"),
                Guard::VarTruthy { key: "off".to_string() },
                FailurePolicy::AbortRun,
            ),
            task(
                "empty",
                ensure_file("/c", "3"),
                Guard::VarTruthy { key: "blank".to_string() },
                FailurePolicy::AbortRun,
            ),
            task(
                "unbound",
                ensure_file("/d", "4"),
                Guard::VarTruthy { key: "missing".to_string() },
                FailurePolicy::AbortRun,
            ),
        ],
    );
    let (report, _) = execute(&plays, base_state());
    assert_eq!(report.outcomes[0].outcome, TaskOutcome::Applied { changed: true, output: String::new() });
    assert!(matches!(report.outcomes[1].outcome, TaskOutcome::Skipped { .. }));
    assert!(matches!(report.outcomes[2].outcome, TaskOutcome::Skipped { .. }));
    assert!(matches!(report.outcomes[3].outcome, TaskOutcome::Skipped { .. }));
}

#[test]
fn registered_result_feeds_later_guard() {
    let mut t1 = task(
        "write config",
        ensure_file("/etc/app.conf", "v=1"),
        Guard::Always,
        FailurePolicy::AbortRun,
    );
    t1.register = Some("conf".to_string());
    let restart = task(
        "restart app",
        Operation::EnsureService { name: "app".to_string(), running: true },
        Guard::ResultChanged { name: "conf".to_string() },
        FailurePolicy::AbortRun,
    );
    let plays = one_play(vec![t1.clone(), restart.clone()]);
    let (first, st1) = execute(&plays, base_state());
    assert_eq!(first.outcomes[1].outcome, TaskOutcome::Applied { changed: true, output: String::new() });
    // Second run: the file is already in the declared state, so the
    // registered result reports no change and the restart is skipped.
    let (second, _) = execute(&plays, st1);
    assert_eq!(second.outcomes[0].outcome, TaskOutcome::Applied { changed: false, output: String::new() });
    assert!(matches!(second.outcomes[1].outcome, TaskOutcome::Skipped { .. }));
}

#[test]
fn registered_results_cross_play_boundaries() {
    let mut t1 = task(
        "write config",
        ensure_file("/etc/app.conf", "v=1"),
        Guard::Always,
        FailurePolicy::AbortRun,
    );
    t1.register = Some("conf".to_string());
    let plays = vec![
        Play { name: "one".to_string(), vars: Vec::new(), tasks: vec![t1] },
        Play {
            name: "two".to_string(),
            vars: Vec::new(),
            tasks: vec![task(
                "follow up",
                ensure_file("/a", "1"),
                Guard::ResultChanged { name: "conf".to_string() },
                FailurePolicy::AbortRun,
            )],
        },
    ];
    let (report, _) = execute(&plays, base_state());
    assert_eq!(report.outcomes[1].outcome, TaskOutcome::Applied { changed: true, output: String::new() });
}

#[test]
fn package_unavailable_fails_with_its_error() {
    let plays = one_play(vec![task(
        "install ghost package",
        Operation::EnsurePackage { name: "no-such-package".to_string() },
        Guard::Always,
        FailurePolicy::AbortRun,
    )]);
    let (report, _) = execute(&plays, base_state());
    assert_eq!(
        report.outcomes[0].outcome,
        TaskOutcome::Failed { error: "package not available".to_string() }
    );
    assert_eq!(report.status, RunStatus::PartialFailure);
}

#[test]
fn ensure_service_converges_stop_and_start() {
    let mut st = base_state();
    st.services.push(("app".to_string(), true));
    let plays = one_play(vec![task(
        "stop app",
        Operation::EnsureService { name: "app".to_string(), running: false },
        Guard::Always,
        FailurePolicy::AbortRun,
    )]);
    let (report, st1) = execute(&plays, st);
    assert_eq!(report.outcomes[0].outcome, TaskOutcome::Applied { changed: true, output: String::new() });
    let (again, _) = execute(&plays, st1);
    assert_eq!(again.outcomes[0].outcome, TaskOutcome::Applied { changed: false, output: String::new() });
}

#[test]
fn empty_playbook_is_success() {
    let plays: Vec<Play> = Vec::new();
    let (report, _) = execute(&plays, base_state());
    assert!(report.outcomes.is_empty());
    assert_eq!(report.status, RunStatus::Success);
}
