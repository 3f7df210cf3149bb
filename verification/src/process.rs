//! The process model: planned invocations and observed outcomes.
//!
//! The engine never spawns anything itself. It hands the caller an
//! `Invocation` to run and takes back a `ProcessOutcome` describing what
//! happened, which it classifies without inspecting argument semantics.

use vstd::prelude::*;
use crate::errors::EngineError;

verus! {

/// A planned command: the program to run and its argument list, in order.
pub struct Invocation {
    pub program: String,
    pub args: Vec<String>,
}

impl Invocation {
    /// The argument list as character sequences, for contracts.
    pub open spec fn args_view(&self) -> Seq<Seq<char>> {
        self.args@.map_values(|a: String| a@)
    }
}

/// What the caller observed of one external process run.
pub enum ProcessOutcome {
    /// The process could not be launched; carries the OS error text.
    SpawnFailed(String),
    /// The process ran to completion, with both streams captured.
    Exited { exit_zero: bool, stdout: String, stderr: String },
    /// The caller's deadline elapsed before the process finished.
    TimedOut,
}

/// Classification of an outcome: the captured streams on a zero exit, the
/// matching error otherwise, diagnostic text passed through verbatim.
pub open spec fn classify_spec(outcome: ProcessOutcome) -> Result<(String, String), EngineError> {
    match outcome {
        ProcessOutcome::Exited { exit_zero, stdout, stderr } => {
            if exit_zero {
                Ok((stdout, stderr))
            } else {
                Err(EngineError::NonZeroExit(stderr))
            }
        },
        ProcessOutcome::SpawnFailed(m) => Err(EngineError::SpawnFailed(m)),
        ProcessOutcome::TimedOut => Err(EngineError::Timeout),
    }
}

/// Classifies a process outcome.
pub fn classify_outcome(outcome: ProcessOutcome) -> (r: Result<(String, String), EngineError>)
    ensures
        r == classify_spec(outcome),
{
    match outcome {
        ProcessOutcome::Exited { exit_zero, stdout, stderr } => {
            if exit_zero {
                Ok((stdout, stderr))
            } else {
                Err(EngineError::NonZeroExit(stderr))
            }
        },
        ProcessOutcome::SpawnFailed(m) => Err(EngineError::SpawnFailed(m)),
        ProcessOutcome::TimedOut => Err(EngineError::Timeout),
    }
}

} // verus!
