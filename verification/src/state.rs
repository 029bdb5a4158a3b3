//! Model of the local system state that operation handlers converge, and the
//! handlers themselves.
//!
//! The agent's operation handlers mutate the local machine: file contents,
//! service states, installed packages. The executor is verified against this
//! explicit model of that state. Each handler is idempotent: applying it when
//! the target already matches the declaration reports `changed == false` and
//! performs no mutation; applying it when the target differs converges the
//! state and reports `changed == true`. Running a command is the one
//! non-convergent operation: it reports a change on every successful run.

use vstd::prelude::*;
use crate::model::{assoc_find, contains_str, find_flag, find_var, seq_has_str, Operation};

verus! {

/// Mathematical view of the system state.
pub ghost struct StateV {
    pub files: Seq<(Seq<char>, Seq<char>)>,
    pub services: Seq<(Seq<char>, bool)>,
    pub packages: Seq<Seq<char>>,
    pub available: Seq<Seq<char>>,
    pub commands_ok: Seq<Seq<char>>,
    pub command_output: Seq<(Seq<char>, Seq<char>)>,
}

/// The local system state the handlers read and converge. The file and
/// service tables are association lists in which the last binding for a key
/// is current.
#[derive(Clone, Debug)]
pub struct SystemState {
    /// Current contents of each file, by path.
    pub files: Vec<(String, String)>,
    /// Whether each service is running, by name.
    pub services: Vec<(String, bool)>,
    /// Packages already installed.
    pub packages: Vec<String>,
    /// Packages the package source can install.
    pub available: Vec<String>,
    /// Commands that exit successfully when run.
    pub commands_ok: Vec<String>,
    /// What each command prints when it runs successfully.
    pub command_output: Vec<(String, String)>,
}

impl View for SystemState {
    type V = StateV;

    open spec fn view(&self) -> StateV {
        StateV {
            files: self.files.deep_view(),
            services: self.services.deep_view(),
            packages: self.packages.deep_view(),
            available: self.available.deep_view(),
            commands_ok: self.commands_ok.deep_view(),
            command_output: self.command_output.deep_view(),
        }
    }
}

impl SystemState {
    /// A state with no files, no services, and nothing installed, installable
    /// or runnable.
    pub fn empty() -> (st: SystemState)
        ensures
            st@ == (StateV {
                files: Seq::<(Seq<char>, Seq<char>)>::empty(),
                services: Seq::<(Seq<char>, bool)>::empty(),
                packages: Seq::<Seq<char>>::empty(),
                available: Seq::<Seq<char>>::empty(),
                commands_ok: Seq::<Seq<char>>::empty(),
                command_output: Seq::<(Seq<char>, Seq<char>)>::empty(),
            }),
    {
        let st = SystemState {
            files: Vec::new(),
            services: Vec::new(),
            packages: Vec::new(),
            available: Vec::new(),
            commands_ok: Vec::new(),
            command_output: Vec::new(),
        };
        proof {
            assert(st@.files =~= Seq::<(Seq<char>, Seq<char>)>::empty());
            assert(st@.services =~= Seq::<(Seq<char>, bool)>::empty());
            assert(st@.packages =~= Seq::<Seq<char>>::empty());
            assert(st@.available =~= Seq::<Seq<char>>::empty());
            assert(st@.commands_ok =~= Seq::<Seq<char>>::empty());
            assert(st@.command_output =~= Seq::<(Seq<char>, Seq<char>)>::empty());
        }
        st
    }
}

/// Error reported when a package is neither installed nor available.
pub open spec fn err_package_unavailable() -> Seq<char> {
    "package not available"@
}

/// Error reported when a command does not exit successfully.
pub open spec fn err_command_failed() -> Seq<char> {
    "command failed"@
}

/// Effect of applying one operation: the state after it, whether it changed
/// anything, the error if it failed, and the captured output (non-empty only
/// for a successful command). A failed operation leaves the state unchanged
/// and reports no change.
pub ghost struct OpEffect {
    pub st: StateV,
    pub changed: bool,
    pub error: Option<Seq<char>>,
    pub output: Seq<char>,
}

/// What one operation does to the system state.
pub open spec fn apply_op(st: StateV, op: Operation) -> OpEffect {
    match op {
        Operation::EnsureFile { path, content } => {
            if assoc_find(st.files, path@) == Some(content@) {
                OpEffect { st, changed: false, error: None, output: Seq::empty() }
            } else {
                OpEffect {
                    st: StateV { files: st.files.push((path@, content@)), ..st },
                    changed: true,
                    error: None,
                    output: Seq::empty(),
                }
            }
        },
        Operation::EnsureService { name, running } => {
            if assoc_find(st.services, name@) == Some(running) {
                OpEffect { st, changed: false, error: None, output: Seq::empty() }
            } else {
                OpEffect {
                    st: StateV { services: st.services.push((name@, running)), ..st },
                    changed: true,
                    error: None,
                    output: Seq::empty(),
                }
            }
        },
        Operation::EnsurePackage { name } => {
            if seq_has_str(st.packages, name@) {
                OpEffect { st, changed: false, error: None, output: Seq::empty() }
            } else if seq_has_str(st.available, name@) {
                OpEffect {
                    st: StateV { packages: st.packages.push(name@), ..st },
                    changed: true,
                    error: None,
                    output: Seq::empty(),
                }
            } else {
                OpEffect { st, changed: false, error: Some(err_package_unavailable()), output: Seq::empty() }
            }
        },
        Operation::RunCommand { command } => {
            if seq_has_str(st.commands_ok, command@) {
                OpEffect {
                    st,
                    changed: true,
                    error: None,
                    output: match assoc_find(st.command_output, command@) {
                        Some(o) => o,
                        None => Seq::empty(),
                    },
                }
            } else {
                OpEffect { st, changed: false, error: Some(err_command_failed()), output: Seq::empty() }
            }
        },
    }
}

/// Applies one operation to the system state: the executable operation
/// handler, verified against `apply_op`.
pub fn apply_operation(st: SystemState, op: &Operation) -> (r: (
    SystemState,
    bool,
    Option<String>,
    String,
))
    ensures
        ({
            let eff = apply_op(st@, *op);
            &&& r.0@ == eff.st
            &&& r.1 == eff.changed
            &&& match r.2 {
                Some(e) => eff.error == Some(e@),
                None => eff.error is None,
            }
            &&& r.3@ == eff.output
        }),
{
    match op {
        Operation::EnsureFile { path, content } => {
            let cur = find_var(&st.files, path);
            let already = match &cur {
                Some(c) => *c == *content,
                None => false,
            };
            if already {
                (st, false, None, String::new())
            } else {
                let mut st2 = st;
                st2.files.push((path.clone(), content.clone()));
                proof {
                    assert(st2@.files =~= st@.files.push((path@, content@)));
                }
                (st2, true, None, String::new())
            }
        },
        Operation::EnsureService { name, running } => {
            let cur = find_flag(&st.services, name);
            let already = match cur {
                Some(c) => c == *running,
                None => false,
            };
            if already {
                (st, false, None, String::new())
            } else {
                let mut st2 = st;
                st2.services.push((name.clone(), *running));
                proof {
                    assert(st2@.services =~= st@.services.push((name@, *running)));
                }
                (st2, true, None, String::new())
            }
        },
        Operation::EnsurePackage { name } => {
            if contains_str(&st.packages, name) {
                (st, false, None, String::new())
            } else if contains_str(&st.available, name) {
                let mut st2 = st;
                st2.packages.push(name.clone());
                proof {
                    assert(st2@.packages =~= st@.packages.push(name@));
                }
                (st2, true, None, String::new())
            } else {
                (st, false, Some("package not available".to_string()), String::new())
            }
        },
        Operation::RunCommand { command } => {
            if contains_str(&st.commands_ok, command) {
                let output = match find_var(&st.command_output, command) {
                    Some(o) => o,
                    None => String::new(),
                };
                (st, true, None, output)
            } else {
                (st, false, Some("command failed".to_string()), String::new())
            }
        },
    }
}

/// A failed operation has no effect: the state is unchanged and no change is
/// reported.
pub proof fn lemma_failed_op_no_effect(st: StateV, op: Operation)
    requires
        apply_op(st, op).error is Some,
    ensures
        apply_op(st, op).st == st,
        !apply_op(st, op).changed,
{
}

/// Idempotence of the convergent operations: applying an operation twice in a
/// row, with no other state change in between, reports a change at most once,
/// and the second application reports `changed == false` and performs no
/// mutation. Running a command is excluded: a command run is not convergent
/// and reports a change on every successful run.
pub proof fn lemma_operation_idempotent(st: StateV, op: Operation)
    requires
        !(op is RunCommand),
    ensures
        ({
            let first = apply_op(st, op);
            let second = apply_op(first.st, op);
            first.error is None ==> {
                &&& second.error is None
                &&& !second.changed
                &&& second.st == first.st
            }
        }),
{
    let first = apply_op(st, op);
    match op {
        Operation::EnsureFile { path, content } => {
            if assoc_find(st.files, path@) != Some(content@) {
                assert(first.st.files.last() == (path@, content@));
                assert(assoc_find(first.st.files, path@) == Some(content@));
            }
        },
        Operation::EnsureService { name, running } => {
            if assoc_find(st.services, name@) != Some(running) {
                assert(first.st.services.last() == (name@, running));
                assert(assoc_find(first.st.services, name@) == Some(running));
            }
        },
        Operation::EnsurePackage { name } => {
            if !seq_has_str(st.packages, name@) && seq_has_str(st.available, name@) {
                assert(first.st.packages.last() == name@);
                assert(seq_has_str(first.st.packages, name@));
            }
        },
        Operation::RunCommand { .. } => {},
    }
}

} // verus!
