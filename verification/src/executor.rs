//! The boundary to the process runner.

use vstd::prelude::*;
use crate::errors::{AtentoError, ErrorModel};
use crate::interpreter::Interpreter;

verus! {

/// What a process left behind.
#[derive(Debug, Clone, PartialEq)]
pub struct ExecutionResult {
    pub stdout: String,
    pub stderr: String,
    pub exit_code: i32,
    pub duration_ms: u64,
}

/// What a process left behind, as mathematical text.
pub struct ExecutionModel {
    pub stdout: Seq<char>,
    pub stderr: Seq<char>,
    pub exit_code: i32,
    pub duration_ms: u64,
}

impl View for ExecutionResult {
    type V = ExecutionModel;

    open spec fn view(&self) -> ExecutionModel {
        ExecutionModel {
            stdout: self.stdout@,
            stderr: self.stderr@,
            exit_code: self.exit_code,
            duration_ms: self.duration_ms,
        }
    }
}

/// What an executor reports, as mathematical text.
pub open spec fn outcome_model(outcome: Result<ExecutionResult, AtentoError>) -> Result<
    ExecutionModel,
    ErrorModel,
> {
    match outcome {
        Ok(done) => Ok(done@),
        Err(e) => Err(e@),
    }
}

/// Runs scripts. An implementation writes the script to a file with the
/// interpreter's extension, runs the interpreter on it for at most `timeout`
/// seconds (0: no limit of its own), and reports what the process left behind,
/// or an error where it could not be run or was stopped at the timeout.
pub trait CommandExecutor {
    fn execute(&self, script: &str, interpreter: &Interpreter, timeout: u64) -> Result<
        ExecutionResult,
        AtentoError,
    >;
}

} // verus!
