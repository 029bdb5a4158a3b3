//! Decision core of the change-driven scheduling loop.
//!
//! The surrounding process owns the I/O of a cycle: it asks the source
//! synchronizer whether the remote has advanced, fast-forwards the mirror,
//! reads and parses each configured playbook file, and persists the reports.
//! The decisions live here: a cycle without upstream changes syncs nothing
//! and runs nothing; a cycle with changes runs every configured playbook
//! file, and a load or parse failure of one file never prevents the remaining
//! files from running. The one-shot trigger instead always runs and halts at
//! the first file that cannot be loaded, propagating that failure.
//!
//! Configuration defaulting and working-directory resolution also live here:
//! a missing branch means `main`, a missing interval means sixty seconds, and
//! a relative working-directory override is resolved against the mirror root,
//! never against the process's own working directory.

use vstd::prelude::*;
use crate::executor::{execute, run_playbook};
use crate::model::{Play, RunReport, RunReportV};
use crate::state::{StateV, SystemState};

verus! {

/// What became of one configured playbook file when the cycle tried to load
/// it: its plays, or the failure that made it unusable.
pub enum PlaybookSource {
    /// The file was read and parsed; these are its plays.
    Loaded { path: String, plays: Vec<Play> },
    /// The file was missing or unreadable.
    Unreadable { path: String, message: String },
    /// The file was read but its content is not a well-formed playbook.
    Malformed { path: String, message: String },
}

/// Which way a playbook file failed to load.
#[derive(Clone, Copy, Debug, PartialEq, Eq, Structural)]
pub enum LoadErrorKind {
    /// The file could not be read.
    Unreadable,
    /// The file's content could not be parsed as a playbook.
    Malformed,
}

/// A load or parse failure of one playbook file, recorded by the cycle that
/// carried on with the remaining files.
#[derive(Clone, Debug, PartialEq)]
pub struct LoadFailure {
    pub path: String,
    pub kind: LoadErrorKind,
    pub message: String,
}

/// Mathematical view of a load failure.
pub ghost struct LoadFailureV {
    pub path: Seq<char>,
    pub kind: LoadErrorKind,
    pub message: Seq<char>,
}

impl View for LoadFailure {
    type V = LoadFailureV;

    open spec fn view(&self) -> LoadFailureV {
        LoadFailureV { path: self.path@, kind: self.kind, message: self.message@ }
    }
}

impl DeepView for LoadFailure {
    type V = LoadFailureV;

    open spec fn deep_view(&self) -> LoadFailureV {
        self.view()
    }
}

/// The failure a playbook source carries, if it carries one.
pub open spec fn source_failure(s: PlaybookSource) -> Option<LoadFailureV> {
    match s {
        PlaybookSource::Loaded { .. } => None,
        PlaybookSource::Unreadable { path, message } => Some(
            LoadFailureV { path: path@, kind: LoadErrorKind::Unreadable, message: message@ },
        ),
        PlaybookSource::Malformed { path, message } => Some(
            LoadFailureV { path: path@, kind: LoadErrorKind::Malformed, message: message@ },
        ),
    }
}

/// Result of running every loadable playbook file of a cycle: one run report
/// per loaded file in order, one recorded failure per unloadable file in
/// order, and the state after all runs.
pub ghost struct SourcesRun {
    pub st: StateV,
    pub reports: Seq<RunReportV>,
    pub failures: Seq<LoadFailureV>,
}

/// What running a cycle's playbook files does: each loaded file's playbook
/// executes against the state the previous one left; a failed file is
/// recorded and the remaining files still run — independent failure domains
/// per file.
pub open spec fn run_sources(sources: Seq<PlaybookSource>, st: StateV) -> SourcesRun
    decreases sources.len(),
{
    if sources.len() == 0 {
        SourcesRun { st, reports: Seq::empty(), failures: Seq::empty() }
    } else {
        match sources[0] {
            PlaybookSource::Loaded { path, plays } => {
                let (report, st1) = run_playbook(plays@, st);
                let rest = run_sources(sources.drop_first(), st1);
                SourcesRun {
                    st: rest.st,
                    reports: seq![report] + rest.reports,
                    failures: rest.failures,
                }
            },
            _ => {
                let rest = run_sources(sources.drop_first(), st);
                SourcesRun {
                    st: rest.st,
                    reports: rest.reports,
                    failures: seq![source_failure(sources[0])->Some_0] + rest.failures,
                }
            },
        }
    }
}

/// Outcome of one poll cycle.
pub ghost struct CycleV {
    /// Whether the cycle fast-forwarded the mirror (and hence ran).
    pub synced: bool,
    pub st: StateV,
    pub reports: Seq<RunReportV>,
    pub failures: Seq<LoadFailureV>,
}

/// What one poll cycle does, given whether the synchronizer reported upstream
/// changes: without changes nothing is synced and nothing runs; with changes
/// the mirror is fast-forwarded and every playbook file is attempted.
pub open spec fn poll_cycle(changed: bool, sources: Seq<PlaybookSource>, st: StateV) -> CycleV {
    if !changed {
        CycleV { synced: false, st, reports: Seq::empty(), failures: Seq::empty() }
    } else {
        let run = run_sources(sources, st);
        CycleV { synced: true, st: run.st, reports: run.reports, failures: run.failures }
    }
}

/// Runs the playbook files from index `i` on, verified against `run_sources`.
fn exec_sources(sources: &Vec<PlaybookSource>, i: usize, st: SystemState) -> (r: (
    SystemState,
    Vec<RunReport>,
    Vec<LoadFailure>,
))
    requires
        i <= sources.len(),
    ensures
        ({
            let run = run_sources(sources@.skip(i as int), st@);
            &&& r.0@ == run.st
            &&& r.1.deep_view() == run.reports
            &&& r.2.deep_view() == run.failures
        }),
    decreases sources.len() - i,
{
    if i == sources.len() {
        let reports: Vec<RunReport> = Vec::new();
        let failures: Vec<LoadFailure> = Vec::new();
        proof {
            assert(sources@.skip(i as int) =~= Seq::<PlaybookSource>::empty());
            assert(reports.deep_view() =~= Seq::<RunReportV>::empty());
            assert(failures.deep_view() =~= Seq::<LoadFailureV>::empty());
        }
        (st, reports, failures)
    } else {
        proof {
            assert(sources@.skip(i as int)[0] == sources@[i as int]);
            assert(sources@.skip(i as int).drop_first() =~= sources@.skip(i as int + 1));
        }
        match &sources[i] {
            PlaybookSource::Loaded { path: _, plays } => {
                let (report, st1) = execute(plays, st);
                let (st2, mut rest, failures) = exec_sources(sources, i + 1, st1);
                let mut reports: Vec<RunReport> = Vec::new();
                reports.push(report);
                reports.append(&mut rest);
                proof {
                    let run = run_sources(sources@.skip(i as int), st@);
                    assert(reports.deep_view() =~= run.reports);
                }
                (st2, reports, failures)
            },
            PlaybookSource::Unreadable { path, message } => {
                let (st2, reports, mut rest) = exec_sources(sources, i + 1, st);
                let mut failures: Vec<LoadFailure> = Vec::new();
                failures.push(
                    LoadFailure {
                        path: path.clone(),
                        kind: LoadErrorKind::Unreadable,
                        message: message.clone(),
                    },
                );
                failures.append(&mut rest);
                proof {
                    let run = run_sources(sources@.skip(i as int), st@);
                    assert(failures.deep_view() =~= run.failures);
                }
                (st2, reports, failures)
            },
            PlaybookSource::Malformed { path, message } => {
                let (st2, reports, mut rest) = exec_sources(sources, i + 1, st);
                let mut failures: Vec<LoadFailure> = Vec::new();
                failures.push(
                    LoadFailure {
                        path: path.clone(),
                        kind: LoadErrorKind::Malformed,
                        message: message.clone(),
                    },
                );
                failures.append(&mut rest);
                proof {
                    let run = run_sources(sources@.skip(i as int), st@);
                    assert(failures.deep_view() =~= run.failures);
                }
                (st2, reports, failures)
            },
        }
    }
}

/// Outcome of one poll cycle, as handed back to the loop around it.
pub struct CycleOutcome {
    /// Whether the mirror was fast-forwarded (and the playbook files ran).
    pub synced: bool,
    /// One run report per loaded playbook file, in file order.
    pub reports: Vec<RunReport>,
    /// One recorded failure per unloadable playbook file, in file order.
    pub failures: Vec<LoadFailure>,
}

/// Runs one poll cycle, verified against `poll_cycle`: when the synchronizer
/// reported no upstream change, nothing syncs, nothing runs and the state is
/// untouched; otherwise every playbook file is attempted, load and parse
/// failures isolated to their own file. An empty playbook list is not an
/// error: the cycle completes with no reports and no failures.
pub fn run_cycle(changed: bool, sources: &Vec<PlaybookSource>, st: SystemState) -> (r: (
    CycleOutcome,
    SystemState,
))
    ensures
        ({
            let c = poll_cycle(changed, sources@, st@);
            &&& r.0.synced == c.synced
            &&& r.0.reports.deep_view() == c.reports
            &&& r.0.failures.deep_view() == c.failures
            &&& r.1@ == c.st
        }),
{
    if !changed {
        let reports: Vec<RunReport> = Vec::new();
        let failures: Vec<LoadFailure> = Vec::new();
        proof {
            assert(reports.deep_view() =~= Seq::<RunReportV>::empty());
            assert(failures.deep_view() =~= Seq::<LoadFailureV>::empty());
        }
        (CycleOutcome { synced: false, reports, failures }, st)
    } else {
        proof {
            assert(sources@.skip(0) =~= sources@);
        }
        let (st2, reports, failures) = exec_sources(sources, 0, st);
        (CycleOutcome { synced: true, reports, failures }, st2)
    }
}

/// Result of a one-shot run: the reports of the loaded prefix of the playbook
/// list, and the failure that halted it, if one did.
pub ghost struct OnceRun {
    pub st: StateV,
    pub reports: Seq<RunReportV>,
    pub halted: Option<LoadFailureV>,
}

/// What a one-shot run does: playbook files run in order until the first one
/// that cannot be loaded; that failure halts the run and is handed to the
/// caller — a one-shot invocation has no further loop iteration to recover
/// in.
pub open spec fn run_once_spec(sources: Seq<PlaybookSource>, st: StateV) -> OnceRun
    decreases sources.len(),
{
    if sources.len() == 0 {
        OnceRun { st, reports: Seq::empty(), halted: None }
    } else {
        match sources[0] {
            PlaybookSource::Loaded { path, plays } => {
                let (report, st1) = run_playbook(plays@, st);
                let rest = run_once_spec(sources.drop_first(), st1);
                OnceRun { st: rest.st, reports: seq![report] + rest.reports, halted: rest.halted }
            },
            _ => OnceRun { st, reports: Seq::empty(), halted: source_failure(sources[0]) },
        }
    }
}

/// One-shot trigger over already-loaded sources, verified against
/// `run_once_spec`: runs each file's playbook in order and halts at the first
/// load or parse failure, handing back the reports produced before it and the
/// failure itself.
pub fn run_once(sources: &Vec<PlaybookSource>, st: SystemState) -> (r: (
    Vec<RunReport>,
    Option<LoadFailure>,
    SystemState,
))
    ensures
        ({
            let run = run_once_spec(sources@, st@);
            &&& r.0.deep_view() == run.reports
            &&& match r.1 {
                Some(f) => run.halted == Some(f@),
                None => run.halted is None,
            }
            &&& r.2@ == run.st
        }),
{
    proof {
        assert(sources@.skip(0) =~= sources@);
    }
    exec_once(sources, 0, st)
}

/// Runs the one-shot pass from index `i` on.
fn exec_once(sources: &Vec<PlaybookSource>, i: usize, st: SystemState) -> (r: (
    Vec<RunReport>,
    Option<LoadFailure>,
    SystemState,
))
    requires
        i <= sources.len(),
    ensures
        ({
            let run = run_once_spec(sources@.skip(i as int), st@);
            &&& r.0.deep_view() == run.reports
            &&& match r.1 {
                Some(f) => run.halted == Some(f@),
                None => run.halted is None,
            }
            &&& r.2@ == run.st
        }),
    decreases sources.len() - i,
{
    if i == sources.len() {
        let reports: Vec<RunReport> = Vec::new();
        proof {
            assert(sources@.skip(i as int) =~= Seq::<PlaybookSource>::empty());
            assert(reports.deep_view() =~= Seq::<RunReportV>::empty());
        }
        (reports, None, st)
    } else {
        proof {
            assert(sources@.skip(i as int)[0] == sources@[i as int]);
            assert(sources@.skip(i as int).drop_first() =~= sources@.skip(i as int + 1));
        }
        match &sources[i] {
            PlaybookSource::Loaded { path: _, plays } => {
                let (report, st1) = execute(plays, st);
                let (mut rest, halted, st2) = exec_once(sources, i + 1, st1);
                let mut reports: Vec<RunReport> = Vec::new();
                reports.push(report);
                reports.append(&mut rest);
                proof {
                    let run = run_once_spec(sources@.skip(i as int), st@);
                    assert(reports.deep_view() =~= run.reports);
                }
                (reports, halted, st2)
            },
            PlaybookSource::Unreadable { path, message } => {
                let reports: Vec<RunReport> = Vec::new();
                proof {
                    assert(reports.deep_view() =~= Seq::<RunReportV>::empty());
                }
                let failure = LoadFailure {
                    path: path.clone(),
                    kind: LoadErrorKind::Unreadable,
                    message: message.clone(),
                };
                (reports, Some(failure), st)
            },
            PlaybookSource::Malformed { path, message } => {
                let reports: Vec<RunReport> = Vec::new();
                proof {
                    assert(reports.deep_view() =~= Seq::<RunReportV>::empty());
                }
                let failure = LoadFailure {
                    path: path.clone(),
                    kind: LoadErrorKind::Malformed,
                    message: message.clone(),
                };
                (reports, Some(failure), st)
            },
        }
    }
}

/// No-change cycle: when the synchronizer reports no upstream changes, the
/// cycle fast-forwards nothing, produces no run report, records no failure
/// and leaves the state untouched.
pub proof fn lemma_no_change_cycle(sources: Seq<PlaybookSource>, st: StateV)
    ensures
        ({
            let c = poll_cycle(false, sources, st);
            &&& !c.synced
            &&& c.reports == Seq::<RunReportV>::empty()
            &&& c.failures == Seq::<LoadFailureV>::empty()
            &&& c.st == st
        }),
{
}

/// Isolation across files: a cycle over a playbook file that loads and one
/// that is malformed still runs the loaded file's playbook and records the
/// malformed file's failure — one file's parse failure does not abort the
/// cycle.
pub proof fn lemma_file_isolation(a: PlaybookSource, b: PlaybookSource, st: StateV)
    requires
        a is Loaded,
        b is Malformed,
    ensures
        ({
            let c = poll_cycle(true, seq![a, b], st);
            &&& c.synced
            &&& c.reports == seq![run_playbook(a->Loaded_plays@, st).0]
            &&& c.failures == seq![
                LoadFailureV {
                    path: b->Malformed_path@,
                    kind: LoadErrorKind::Malformed,
                    message: b->Malformed_message@,
                },
            ]
            &&& c.st == run_playbook(a->Loaded_plays@, st).1
        }),
{
    let st1 = run_playbook(a->Loaded_plays@, st).1;
    assert(seq![a, b][0] == a);
    assert(seq![a, b].drop_first() =~= seq![b]);
    assert(seq![b][0] == b);
    assert(seq![b].drop_first() =~= Seq::<PlaybookSource>::empty());
    let run_end = run_sources(Seq::<PlaybookSource>::empty(), st1);
    assert(run_end.reports == Seq::<RunReportV>::empty() && run_end.failures
        == Seq::<LoadFailureV>::empty() && run_end.st == st1);
    let run_b = run_sources(seq![b], st1);
    assert(run_b.reports =~= Seq::<RunReportV>::empty());
    assert(run_b.failures == seq![source_failure(b)->Some_0] + run_end.failures);
    assert(run_b.failures =~= seq![source_failure(b)->Some_0]);
    let run_ab = run_sources(seq![a, b], st);
    assert(run_ab.reports == seq![run_playbook(a->Loaded_plays@, st).0] + run_b.reports);
    assert(run_ab.reports =~= seq![run_playbook(a->Loaded_plays@, st).0]);
}

/// A one-shot run succeeds — halts at no file — exactly when every configured
/// playbook file loaded and parsed.
pub proof fn lemma_once_halts_iff(sources: Seq<PlaybookSource>, st: StateV)
    ensures
        run_once_spec(sources, st).halted is None <==> (forall|i: int|
            0 <= i < sources.len() ==> sources[i] is Loaded),
    decreases sources.len(),
{
    if sources.len() > 0 {
        if sources[0] is Loaded {
            let st1 = run_playbook(sources[0]->Loaded_plays@, st).1;
            lemma_once_halts_iff(sources.drop_first(), st1);
            let rest = run_once_spec(sources.drop_first(), st1);
            assert(run_once_spec(sources, st).halted == rest.halted);
            if rest.halted is None {
                assert forall|i: int| 0 <= i < sources.len() implies sources[i] is Loaded by {
                    if i > 0 {
                        assert(sources.drop_first()[i - 1] == sources[i]);
                    }
                }
            } else {
                let j = choose|i: int|
                    0 <= i < sources.drop_first().len() && !(sources.drop_first()[i] is Loaded);
                assert(sources[j + 1] == sources.drop_first()[j]);
            }
        } else {
            assert(run_once_spec(sources, st).halted == source_failure(sources[0]));
            assert(source_failure(sources[0]) is Some);
            assert(!(sources[0] is Loaded));
        }
    }
}

/// Number of sources whose file loaded and parsed.
pub open spec fn loaded_count(sources: Seq<PlaybookSource>) -> nat
    decreases sources.len(),
{
    if sources.len() == 0 {
        0
    } else {
        (if sources[0] is Loaded {
            1nat
        } else {
            0nat
        }) + loaded_count(sources.drop_first())
    }
}

/// A cycle that runs produces exactly one run report per loaded playbook file
/// and records exactly one failure per unloadable one — no file is passed
/// over and none is attempted twice.
pub proof fn lemma_cycle_counts(sources: Seq<PlaybookSource>, st: StateV)
    ensures
        run_sources(sources, st).reports.len() == loaded_count(sources),
        run_sources(sources, st).failures.len() + loaded_count(sources) == sources.len(),
    decreases sources.len(),
{
    if sources.len() > 0 {
        if sources[0] is Loaded {
            let st1 = run_playbook(sources[0]->Loaded_plays@, st).1;
            lemma_cycle_counts(sources.drop_first(), st1);
        } else {
            lemma_cycle_counts(sources.drop_first(), st);
        }
    }
}

/// The branch to track: the configured one, or `main` when none is set.
pub fn effective_branch(branch: &Option<String>) -> (b: String)
    ensures
        b@ == match branch {
            Some(s) => s@,
            None => "main"@,
        },
{
    match branch {
        Some(s) => s.clone(),
        None => "main".to_string(),
    }
}

/// The poll interval in seconds: the configured one, or sixty when none is
/// set.
pub fn effective_interval(interval: &Option<u64>) -> (r: u64)
    ensures
        r == match interval {
            Some(i) => *i,
            None => 60u64,
        },
{
    match interval {
        Some(i) => *i,
        None => 60,
    }
}

/// Whether a path is absolute.
pub open spec fn is_absolute_path(p: Seq<char>) -> bool {
    p.len() > 0 && p[0] == '/'
}

/// A base path joined with a relative one.
pub open spec fn joined_path(base: Seq<char>, rel: Seq<char>) -> Seq<char> {
    base + "/"@ + rel
}

/// Resolves the working-directory override: an absolute override stands as it
/// is; a relative one is resolved against the mirror root, never against the
/// process's own working directory; no override means the mirror root itself.
pub fn resolve_workdir(mirror_root: &String, workdir: &Option<String>) -> (r: String)
    ensures
        r@ == match workdir {
            Some(w) => if is_absolute_path(w@) {
                w@
            } else {
                joined_path(mirror_root@, w@)
            },
            None => mirror_root@,
        },
{
    match workdir {
        Some(w) => {
            let len = w.as_str().unicode_len();
            if len != 0 && w.as_str().get_char(0) == '/' {
                w.clone()
            } else {
                let mut out = mirror_root.clone();
                out.append("/");
                out.append(w.as_str());
                out
            }
        },
        None => mirror_root.clone(),
    }
}

} // verus!
