//! Running the command: the exit code it reports, and the errors of
//! starting and waiting for it.

use vstd::prelude::*;

use crate::text::{push_str, string_of};

verus! {

/// Errors of command execution.
#[derive(Debug, Clone)]
pub enum ExecutorError {
    /// The child process could not be started (the error text given).
    Spawn { program: String, reason: String },
    /// Waiting for the child process failed.
    Wait { program: String, reason: String },
    /// The Ctrl+C handler could not be installed.
    SignalHandler { reason: String },
}

/// The message each execution error displays.
pub open spec fn executor_error_text(e: ExecutorError) -> Seq<char> {
    match e {
        ExecutorError::Spawn { program, reason } => "failed to execute `"@ + program@ + "`: "@ + reason@,
        ExecutorError::Wait { program, reason } => "failed to wait for `"@ + program@ + "`: "@ + reason@,
        ExecutorError::SignalHandler { reason } => "failed to install signal handler: "@ + reason@,
    }
}

impl ExecutorError {
    /// The message this error displays.
    pub fn to_string(&self) -> (r: String)
        ensures
            r@ == executor_error_text(*self),
    {
        let mut m: Vec<char> = Vec::new();
        match self {
            ExecutorError::Spawn { program, reason } => {
                push_str(&mut m, "failed to execute `");
                push_str(&mut m, program.as_str());
                push_str(&mut m, "`: ");
                push_str(&mut m, reason.as_str());
            },
            ExecutorError::Wait { program, reason } => {
                push_str(&mut m, "failed to wait for `");
                push_str(&mut m, program.as_str());
                push_str(&mut m, "`: ");
                push_str(&mut m, reason.as_str());
            },
            ExecutorError::SignalHandler { reason } => {
                push_str(&mut m, "failed to install signal handler: ");
                push_str(&mut m, reason.as_str());
            },
        }
        string_of(&m)
    }
}

/// The exit code runx reports for a finished child: 0 on success; on Unix,
/// 128 plus the signal that ended it; else its exit code, or 1 when it has
/// none.
pub open spec fn exit_code_of(success: bool, signal: Option<i32>, code: Option<i32>) -> int {
    if success {
        0
    } else {
        match signal {
            Some(s) => 128 + s,
            None => match code {
                Some(c) => c as int,
                None => 1,
            },
        }
    }
}

/// The exit code of a finished child, from what its exit status tells:
/// whether it succeeded, the signal that ended it, and its code.
pub fn exit_code(success: bool, signal: Option<i32>, code: Option<i32>) -> (r: i32)
    requires
        signal matches Some(s) ==> s <= i32::MAX - 128,
    ensures
        r == exit_code_of(success, signal, code),
{
    if success {
        return 0;
    }
    match signal {
        Some(s) => 128 + s,
        None => match code {
            Some(c) => c,
            None => 1,
        },
    }
}

} // verus!
