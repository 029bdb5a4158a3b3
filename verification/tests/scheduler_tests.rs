use xconfig_agent::model::{FailurePolicy, Guard, Operation, Play, RunStatus, Task};
use xconfig_agent::scheduler::{
    effective_branch, effective_interval, resolve_workdir, run_cycle, run_once, LoadErrorKind,
    PlaybookSource,
};
use xconfig_agent::state::SystemState;

fn simple_plays() -> Vec<Play> {
    vec![Play {
        name: "play".to_string(),
        vars: Vec::new(),
        tasks: vec![Task {
            name: "write".to_string(),
            op: Operation::EnsureFile { path: "/a".to_string(), content: "1".to_string() },
            guard: Guard::Always,
            policy: FailurePolicy::AbortRun,
            register: None,
        }],
    }]
}

fn loaded(path: &str) -> PlaybookSource {
    PlaybookSource::Loaded { path: path.to_string(), plays: simple_plays() }
}

fn malformed(path: &str) -> PlaybookSource {
    PlaybookSource::Malformed { path: path.to_string(), message: "bad yaml".to_string() }
}

fn unreadable(path: &str) -> PlaybookSource {
    PlaybookSource::Unreadable { path: path.to_string(), message: "no such file".to_string() }
}

#[test]
fn no_change_cycle_syncs_nothing_and_runs_nothing() {
    let sources = vec![loaded("site.yml"), malformed("broken.yml")];
    let (outcome, st) = run_cycle(false, &sources, SystemState::empty());
    assert!(!outcome.synced);
    assert!(outcome.reports.is_empty());
    assert!(outcome.failures.is_empty());
    assert!(st.files.is_empty());
}

#[test]
fn changed_cycle_syncs_and_runs() {
    let sources = vec![loaded("site.yml")];
    let (outcome, st) = run_cycle(true, &sources, SystemState::empty());
    assert!(outcome.synced);
    assert_eq!(outcome.reports.len(), 1);
    assert_eq!(outcome.reports[0].status, RunStatus::Success);
    assert!(outcome.failures.is_empty());
    assert!(st.files.iter().any(|(p, _)| p == "/a"));
}

#[test]
fn isolation_across_files() {
    let sources = vec![loaded("site.yml"), malformed("broken.yml")];
    let (outcome, _) = run_cycle(true, &sources, SystemState::empty());
    assert!(outcome.synced);
    assert_eq!(outcome.reports.len(), 1);
    assert_eq!(outcome.reports[0].status, RunStatus::Success);
    assert_eq!(outcome.failures.len(), 1);
    assert_eq!(outcome.failures[0].path, "broken.yml");
    assert_eq!(outcome.failures[0].kind, LoadErrorKind::Malformed);
    assert_eq!(outcome.failures[0].message, "bad yaml");
}

#[test]
fn isolation_works_in_either_order() {
    let sources = vec![unreadable("missing.yml"), loaded("site.yml")];
    let (outcome, _) = run_cycle(true, &sources, SystemState::empty());
    assert_eq!(outcome.reports.len(), 1);
    assert_eq!(outcome.failures.len(), 1);
    assert_eq!(outcome.failures[0].kind, LoadErrorKind::Unreadable);
}

#[test]
fn empty_playbook_list_completes_cleanly() {
    let sources: Vec<PlaybookSource> = Vec::new();
    let (outcome, _) = run_cycle(true, &sources, SystemState::empty());
    assert!(outcome.synced);
    assert!(outcome.reports.is_empty());
    assert!(outcome.failures.is_empty());
}

#[test]
fn one_shot_runs_all_when_everything_loads() {
    let sources = vec![loaded("a.yml"), loaded("b.yml")];
    let (reports, halted, _) = run_once(&sources, SystemState::empty());
    assert_eq!(reports.len(), 2);
    assert!(halted.is_none());
}

#[test]
fn one_shot_halts_at_first_failure() {
    let sources = vec![loaded("a.yml"), unreadable("missing.yml"), loaded("c.yml")];
    let (reports, halted, _) = run_once(&sources, SystemState::empty());
    assert_eq!(reports.len(), 1);
    let failure = halted.expect("the unreadable file halts the one-shot run");
    assert_eq!(failure.path, "missing.yml");
    assert_eq!(failure.kind, LoadErrorKind::Unreadable);
}

#[test]
fn one_shot_empty_list_is_success() {
    let sources: Vec<PlaybookSource> = Vec::new();
    let (reports, halted, _) = run_once(&sources, SystemState::empty());
    assert!(reports.is_empty());
    assert!(halted.is_none());
}

#[test]
fn branch_defaults_to_main() {
    assert_eq!(effective_branch(&None), "main");
    assert_eq!(effective_branch(&Some("release".to_string())), "release");
}

#[test]
fn interval_defaults_to_sixty_seconds() {
    assert_eq!(effective_interval(&None), 60);
    assert_eq!(effective_interval(&Some(5)), 5);
}

#[test]
fn workdir_resolution() {
    let root = "/tmp/mirror".to_string();
    assert_eq!(resolve_workdir(&root, &None), "/tmp/mirror");
    assert_eq!(
        resolve_workdir(&root, &Some("/srv/playbooks".to_string())),
        "/srv/playbooks"
    );
    assert_eq!(
        resolve_workdir(&root, &Some("playbooks".to_string())),
        "/tmp/mirror/playbooks"
    );
}
