//! The event-driven agent loop's brain: event and message types, and the
//! state machine that sequences externally-triggered runs. The host drains
//! the channel and feeds each event to `transition`; a single consumer keeps
//! state changes serialised.
use vstd::prelude::*;

verus! {

/// What can arrive on the agent's event channel.
#[derive(Debug)]
pub enum AgentEvent {
    InputReceived(String),
    TaskCompleted { task_id: String, success: bool },
    SystemAlert(String),
    ExternalMessage(String),
}

/// The agent's lifecycle state, owned exclusively by the event loop.
#[derive(Debug)]
pub enum AgentState {
    Idle,
    WaitingForTask,
    Executing,
    Error(String),
}

/// One step of the state machine: input while idle queues a run; a completed
/// task leads back to idle on success and into the error state on failure;
/// input in the error state is rejected and the state kept — a deliberate
/// fail-closed policy; every other pairing leaves the state unchanged.
pub fn transition(state: AgentState, event: &AgentEvent) -> (r: AgentState)
    ensures
        state is Idle && event is InputReceived ==> r is WaitingForTask,
        state is WaitingForTask && (event matches AgentEvent::TaskCompleted { success: true, .. })
            ==> r is Idle,
        state is WaitingForTask && (event matches AgentEvent::TaskCompleted { success: false, .. })
            ==> (r matches AgentState::Error(m) && m@ == "Task failed"@),
        !(state is Idle && event is InputReceived) && !(state is WaitingForTask
            && event is TaskCompleted) ==> r == state,
{
    match (&state, event) {
        (AgentState::Idle, AgentEvent::InputReceived(_)) => AgentState::WaitingForTask,
        (AgentState::WaitingForTask, AgentEvent::TaskCompleted { success, .. }) => {
            if *success {
                AgentState::Idle
            } else {
                AgentState::Error(String::from_str("Task failed"))
            }
        },
        _ => state,
    }
}

/// A message between cooperating agent tasks.
#[derive(Debug)]
pub enum AgentMessage {
    Command(String),
    StatusUpdate { task_id: String, status: String },
    Shutdown,
}

/// The reply owed to a request/response exchange: `ping` is answered with
/// `pong`, anything else is an unknown command.
pub fn respond(command: &str) -> (r: Result<String, String>)
    ensures
        command@ == "ping"@ ==> (r matches Ok(o) && o@ == "pong"@),
        command@ != "ping"@ ==> (r matches Err(e) && e@ == "unknown command"@),
{
    if crate::text::str_eq(command, "ping") {
        Ok(String::from_str("pong"))
    } else {
        Err(String::from_str("unknown command"))
    }
}

} // verus!
