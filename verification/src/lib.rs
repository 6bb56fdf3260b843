//! A fighter for CI gates that wins them and never bypasses them.
//!
//! A gate is diagnosed, one legitimate move is proposed for each requirement that is not
//! satisfied, and the whole is accounted for in a report. Green is only ever earned: see
//! [`gate::green_is_earned`].
//!
//! The library does no input or output. Where it needs an answer from outside it asks for
//! it step by step: see [`fetch::run_bundle`], [`apply::apply_moves`] and
//! [`summon::summon`].
pub mod actions_policy;
pub mod admission;
pub mod apply;
pub mod args;
pub mod context;
pub mod diagnosis;
pub mod fetch;
pub mod fetch_error;
pub mod fight;
pub mod gate;
pub mod gate_triage;
pub mod greens;
pub mod json;
pub mod moves;
pub mod outcome;
pub mod plan;
pub mod polarity;
pub mod port;
pub mod required;
pub mod retired_policy;
pub mod rollup;
pub mod show;
pub mod summon;
pub mod summon_run;
pub mod text;
pub mod workflow_file;
pub mod workflows;

pub use diagnosis::{diagnose, diagnose_with_hints, Diagnosis, Hints};
