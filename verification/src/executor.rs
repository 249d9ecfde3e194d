//! The subprocess executor's decision rules.
//!
//! The executor spawns an external command, polls it, and on timeout kills
//! and reaps the child so that no process is ever left running.  The
//! spawning, polling, killing and sleeping are I/O and live in the driver;
//! everything the driver decides — when to collect, when to kill, what to
//! report — is a verified function here, from plain values to plain values.

use vstd::prelude::*;

verus! {

/// A command to run: the program, its arguments, and the timeout after
/// which the child is killed, in milliseconds.
#[derive(Debug, Clone)]
pub struct CommandSpec {
    pub program: String,
    pub args: Vec<String>,
    pub timeout_ms: u64,
}

/// What a finished subprocess left behind.  The exit status is carried
/// uninterpreted: some callers treat a non-zero exit as an informational
/// result, not a failure.
#[derive(Debug, Clone)]
pub struct CommandOutput {
    pub success: bool,
    pub exit_code: Option<i64>,
    pub stdout: String,
    pub stderr: String,
}

/// Why a command produced no output.
#[derive(Debug, Clone)]
pub enum ExecError {
    /// The executable could not be spawned (most often: not installed).
    Spawn(String),
    /// The command exceeded its allotted duration and was killed.
    Timeout,
    /// The child could not be polled or reaped.
    Wait(String),
}

/// What the poll of a running child reported.
#[derive(Debug)]
pub enum PollResult {
    /// The child has exited; its output can be collected.
    Exited,
    /// The child is still running.
    Running,
    /// Polling itself failed, with the reported message.
    PollError(String),
}

/// What the executor does next after one poll.
#[derive(Debug)]
pub enum ExecAction {
    /// Collect the child's output and return it.
    CollectOutput,
    /// Kill and reap the child, then report a timeout.
    KillAndTimeout,
    /// Kill the child, then report the polling failure.
    KillAndFail(String),
    /// Sleep briefly and poll again.
    SleepAndRetry,
}

/// One step of the executor's poll loop: an exited child is collected; a
/// running child is killed exactly when its time has run out, and left to
/// run otherwise; a failing poll kills the child and surfaces the message.
pub fn executor_step(elapsed_ms: u64, timeout_ms: u64, poll: PollResult) -> (r: ExecAction)
    ensures
        (poll is Exited) ==> (r is CollectOutput),
        (poll is Running && elapsed_ms > timeout_ms) ==> (r is KillAndTimeout),
        (poll is Running && elapsed_ms <= timeout_ms) ==> (r is SleepAndRetry),
        poll matches PollResult::PollError(m) ==> (r matches ExecAction::KillAndFail(e) && e@
            == m@),
{
    match poll {
        PollResult::Exited => ExecAction::CollectOutput,
        PollResult::Running => {
            if elapsed_ms > timeout_ms {
                ExecAction::KillAndTimeout
            } else {
                ExecAction::SleepAndRetry
            }
        },
        PollResult::PollError(m) => ExecAction::KillAndFail(m),
    }
}

/// The time that has passed between two clock readings in milliseconds,
/// never negative.
pub fn elapsed_ms(start_ms: u64, now_ms: u64) -> (r: u64)
    ensures
        now_ms >= start_ms ==> r == now_ms - start_ms,
        now_ms < start_ms ==> r == 0,
{
    if now_ms < start_ms {
        0
    } else {
        now_ms - start_ms
    }
}

/// The error each terminal action reports, if any: a timeout after
/// `KillAndTimeout`, the poll's message after `KillAndFail`.
pub fn error_of_action(action: ExecAction) -> (r: Option<ExecError>)
    ensures
        (action is KillAndTimeout) <==> (r matches Some(e) && e is Timeout),
        action matches ExecAction::KillAndFail(m) ==> (r matches Some(e) && (e matches
            ExecError::Wait(w) && w@ == m@)),
        (r matches Some(e) && e is Wait) ==> action is KillAndFail,
        (action is CollectOutput || action is SleepAndRetry) <==> (r is None),
{
    match action {
        ExecAction::CollectOutput => None,
        ExecAction::KillAndTimeout => Some(ExecError::Timeout),
        ExecAction::KillAndFail(m) => Some(ExecError::Wait(m)),
        ExecAction::SleepAndRetry => None,
    }
}

/// The outcome of a mutating subcommand (install, update, uninstall): a
/// zero exit is success, and any other exit surfaces the command's own
/// error text.
pub fn mutation_result_of_output(out: &CommandOutput) -> (r: Result<(), String>)
    ensures
        out.success ==> (r is Ok),
        !out.success ==> (r matches Err(e) && e@ == out.stderr@),
{
    if out.success {
        Ok(())
    } else {
        Err(out.stderr.clone())
    }
}

/// Whether a probe for an executable found it: the probe ran and exited
/// with success.
pub fn command_found(probe: &Result<CommandOutput, ExecError>) -> (r: bool)
    ensures
        r == (probe matches Ok(out) && out.success),
{
    match probe {
        Ok(out) => out.success,
        Err(_) => false,
    }
}

} // verus!
