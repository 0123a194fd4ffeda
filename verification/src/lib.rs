//! Execution engine for declarative, multi-task plans.
//!
//! A plan decomposes a goal into dependent tasks; an installed template
//! describes how each task is broken into ordered phases with verification
//! checks. This crate holds the verified core of the engine: identifier and
//! path validation, document validation, dependency-aware task selection,
//! phase progression, check-spec parsing, and the state transitions that
//! record check outcomes and task commits. Reading files, spawning hook and
//! check processes and invoking git are left to the surrounding application,
//! which feeds their outcomes to the functions here as plain values.

pub mod checks;
pub mod commit;
pub mod docs;
pub mod engine;
pub mod gitrefs;
pub mod hooks;
pub mod ids;
pub mod paths;
pub mod plans;
pub mod prompt;
pub mod schedule;
pub mod settings;
pub mod templates;
pub mod text;
