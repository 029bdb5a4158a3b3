//! Execution and scheduling core of a local configuration-management agent.
//!
//! A playbook is an ordered list of plays; a play is a named group of tasks
//! sharing a variable scope; a task is one declarative, idempotent unit of
//! desired system state. The executor walks plays and tasks strictly in
//! declaration order, evaluates guards, applies operations against a model of
//! the local system, enforces the per-task failure policy and produces a run
//! report. The scheduler module holds the decision core of the polling loop:
//! which cycles sync and run, and how per-file load and parse failures are
//! isolated from each other.

pub mod model;
pub mod state;
pub mod executor;
pub mod scheduler;
