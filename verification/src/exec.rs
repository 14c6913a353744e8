//! The execution model of one request: the exact process invocation an
//! output definition stands for, and the captured result of running it.

use vstd::prelude::*;
use vstd::string::StringExecFns;
use crate::config::OutputConfig;

verus! {

/// Everything a spawn needs: argv, working directory, and the PATH to hand
/// the child. The caller performs the spawn; nothing here touches the
/// operating system.
#[derive(Debug)]
pub struct CommandInvocation {
    pub program: String,
    pub args: Vec<String>,
    pub working_dir: String,
    pub path_var: Option<String>,
}

/// How a child process ended: cleanly, or with a failure (the exit code,
/// when the process exited with one).
#[derive(Debug)]
pub enum ExitStatus {
    Success,
    Failure(Option<i32>),
}

/// What one execution produced: full stdout and stderr, and the exit
/// status. Built per request and discarded after the response is written.
#[derive(Debug)]
pub struct ExecutionResult {
    pub stdout: Vec<u8>,
    pub stderr: Vec<u8>,
    pub exit_status: ExitStatus,
}

impl ExecutionResult {
    /// Whether the child exited cleanly.
    pub open spec fn succeeded(self) -> bool {
        self.exit_status is Success
    }
}

/// Assembles the spawn request for a definition: argv is exactly the
/// configured command followed by the configured arguments (no shell, no
/// splitting), the working directory is the data directory, and the
/// child's PATH is replaced by the override exactly when one is given.
pub fn plan_invocation(
    definition: &OutputConfig,
    data_dir: &str,
    path_override: Option<String>,
) -> (r: CommandInvocation)
    ensures
        r.program@ == definition.cmd@,
        r.args@ == definition.args@,
        r.working_dir@ == data_dir@,
        r.path_var == path_override,
{
    let (program, args) = definition.get_command_parts();
    CommandInvocation {
        program,
        args,
        working_dir: String::from_str(data_dir),
        path_var: path_override,
    }
}

} // verus!
