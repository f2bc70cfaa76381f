//! Task execution: primitive invocations, their classified outcomes, and the
//! retry policy for transient failures. The blocking work — spawning a
//! process, sending a request, sleeping — happens in the host behind the
//! `TaskExecutor` trait; everything that decides is here.
use crate::text::{dec_rep, trimmed_of, u64_to_dec};
use vstd::prelude::*;

verus! {

/// One primitive invocation: a shell command, an HTTP request, or a built-in
/// internal operation.
#[derive(Debug)]
pub enum TollInvocation {
    ShellCommand { command: String, args: Vec<String> },
    HttpRequest { url: String, payload: String },
    Internal { operation: String },
}

/// The error taxonomy: how a failed invocation is classified.
#[derive(Debug, Clone, Copy, PartialEq, Eq, Structural)]
pub enum FailureKind {
    ToolNotFound,
    InvalidArguments,
    ExecutionFailure,
    Timeout,
    TransportError,
}

/// A classified failure with its explanation.
#[derive(Debug)]
pub struct TaskFailure {
    pub kind: FailureKind,
    pub message: String,
}

/// How an invocation ended.
#[derive(Debug)]
pub enum TaskStatus {
    Success,
    Failed(TaskFailure),
    Skipped,
}

/// What an invocation produced: captured output, when there is any, and the
/// status.
#[derive(Debug)]
pub struct TaskResult {
    pub output: Option<String>,
    pub status: TaskStatus,
}

/// Whether a failure of this kind is transient and worth retrying: timeouts
/// and transport errors are, a clean non-success outcome is not.
pub open spec fn spec_retryable(kind: FailureKind) -> bool {
    kind is Timeout || kind is TransportError
}

pub fn retryable(kind: FailureKind) -> (r: bool)
    ensures
        r == spec_retryable(kind),
{
    kind == FailureKind::Timeout || kind == FailureKind::TransportError
}

/// Runs primitive invocations. The host implements this over a process
/// spawner and an HTTP client with a timeout; rehearsals implement it over a
/// script. `backoff` pauses the calling task for the given whole seconds.
pub trait TaskExecutor {
    fn execute(&mut self, invocation: &TollInvocation) -> (r: TaskResult);

    fn backoff(&mut self, seconds: u64);
}

/// The classification rules of the default executor: how raw outcomes of the
/// three invocation kinds become task results.
pub struct DefaultExecutor;

impl DefaultExecutor {
    /// A finished shell command: success exactly on exit status zero, with
    /// the trimmed standard output as result; otherwise an execution failure
    /// carrying the standard error.
    pub fn classify_shell(exit_zero: bool, stdout: &str, stderr: String) -> (r: TaskResult)
        ensures
            exit_zero ==> r.status is Success && (r.output matches Some(o) && o@ == trimmed_of(
                stdout@,
            )),
            !exit_zero ==> (r.status matches TaskStatus::Failed(f) && f.kind
                is ExecutionFailure && f.message@ == "Command failed"@) && (r.output matches Some(o)
                && o@ == stderr@),
    {
        if exit_zero {
            TaskResult { output: Some(crate::text::trim(stdout)), status: TaskStatus::Success }
        } else {
            TaskResult {
                output: Some(stderr),
                status: TaskStatus::Failed(
                    TaskFailure {
                        kind: FailureKind::ExecutionFailure,
                        message: String::from_str("Command failed"),
                    },
                ),
            }
        }
    }

    /// A finished HTTP exchange: success exactly on a 2xx status, with the
    /// response body as result either way; a failure message names the
    /// status.
    pub fn classify_http(status: u16, body: String) -> (r: TaskResult)
        ensures
            200 <= status < 300 ==> r.status is Success,
            !(200 <= status < 300) ==> (r.status matches TaskStatus::Failed(f) && f.kind
                is ExecutionFailure && f.message@ == "HTTP error: "@ + dec_rep(status as nat)),
            r.output matches Some(o) && o@ == body@,
    {
        if 200 <= status && status < 300 {
            TaskResult { output: Some(body), status: TaskStatus::Success }
        } else {
            let code = u64_to_dec(status as u64);
            TaskResult {
                output: Some(body),
                status: TaskStatus::Failed(
                    TaskFailure {
                        kind: FailureKind::ExecutionFailure,
                        message: String::from_str("HTTP error: ").concat(code.as_str()),
                    },
                ),
            }
        }
    }

    /// An invocation that never finished: a timeout, always retryable.
    pub fn timed_out() -> (r: TaskResult)
        ensures
            r.status matches TaskStatus::Failed(f) && f.kind is Timeout && f.message@
                == "timed out"@,
            r.output is None,
    {
        TaskResult {
            output: None,
            status: TaskStatus::Failed(
                TaskFailure { kind: FailureKind::Timeout, message: String::from_str("timed out") },
            ),
        }
    }

    /// A spawn or connection fault distinct from a clean non-success result.
    pub fn transport_failure(detail: String) -> (r: TaskResult)
        ensures
            r.status matches TaskStatus::Failed(f) && f.kind is TransportError && f.message@
                == detail@,
            r.output is None,
    {
        TaskResult {
            output: None,
            status: TaskStatus::Failed(
                TaskFailure { kind: FailureKind::TransportError, message: detail },
            ),
        }
    }

    /// The built-in internal operations: `ping` answers `pong`; any other
    /// operation is an execution failure.
    pub fn run_internal(operation: &str) -> (r: TaskResult)
        ensures
            operation@ == "ping"@ ==> r.status is Success && (r.output matches Some(o) && o@
                == "pong"@),
            operation@ != "ping"@ ==> (r.status matches TaskStatus::Failed(f) && f.kind
                is ExecutionFailure && f.message@ == "unknown internal operation"@) && r.output
                is None,
    {
        if crate::text::str_eq(operation, "ping") {
            TaskResult { output: Some(String::from_str("pong")), status: TaskStatus::Success }
        } else {
            TaskResult {
                output: None,
                status: TaskStatus::Failed(
                    TaskFailure {
                        kind: FailureKind::ExecutionFailure,
                        message: String::from_str("unknown internal operation"),
                    },
                ),
            }
        }
    }
}

/// Whether a further attempt is due after a finished attempt, and with what
/// backoff. `retries_done` counts the retries already spent: a transient
/// failure earns another attempt while fewer than three retries are spent,
/// and the backoff of the next retry equals its index in seconds.
pub fn retry_decision(status: &TaskStatus, retries_done: u64) -> (r: Option<u64>)
    ensures
        match status {
            TaskStatus::Failed(f) => {
                if spec_retryable(f.kind) && retries_done < 3 {
                    r == Some((retries_done + 1) as u64)
                } else {
                    r is None
                }
            },
            _ => r is None,
        },
{
    match status {
        TaskStatus::Failed(f) => {
            if retryable(f.kind) && retries_done < 3 {
                Some(retries_done + 1)
            } else {
                None
            }
        },
        _ => None,
    }
}

/// Runs one invocation through `executor`, retrying transient failures up to
/// three times with a backoff equal to the retry index in seconds. The result
/// of the last attempt is returned, whatever it is: at most four attempts are
/// made.
pub fn retry<E: TaskExecutor>(invocation: &TollInvocation, executor: &mut E) -> (r: TaskResult) {
    let mut result = executor.execute(invocation);
    let mut retries: u64 = 0;
    loop
        invariant
            retries <= 3,
        decreases 3 - retries,
    {
        match retry_decision(&result.status, retries) {
            Some(backoff) => {
                executor.backoff(backoff);
                retries = backoff;
                result = executor.execute(invocation);
            },
            None => {
                return result;
            },
        }
    }
}

/// Composing execution with agents: an agent that wraps its input in an
/// `echo` shell invocation and reports how the execution went.
pub struct ToolAgent<E: TaskExecutor> {
    pub executor: E,
}

impl<E: TaskExecutor> crate::agents::Agent for ToolAgent<E> {
    fn handle_input(&mut self, input: crate::agents::AgentInput) -> (r: crate::agents::AgentResult) {
        let mut args: Vec<String> = Vec::new();
        args.push(input.message);
        let invocation = TollInvocation::ShellCommand {
            command: String::from_str("echo"),
            args,
        };
        let result = self.executor.execute(&invocation);
        match result.status {
            TaskStatus::Success => crate::agents::AgentResult {
                output: match result.output {
                    Some(o) => o,
                    None => String::new(),
                },
                status: crate::agents::AgentStatus::Success,
            },
            TaskStatus::Failed(f) => crate::agents::AgentResult {
                output: String::from_str("Error: ").concat(f.message.as_str()),
                status: crate::agents::AgentStatus::Error(f.message),
            },
            TaskStatus::Skipped => crate::agents::AgentResult {
                output: String::from_str("Task skipped"),
                status: crate::agents::AgentStatus::InProgress,
            },
        }
    }
}

} // verus!
