//! The core agent abstraction and its behaviour models: an agent turns one
//! input into one result, and composition traits add tool use and role
//! shifting on top.
use crate::text::{contains_seq, dec_rep, str_contains, u64_to_dec};
use vstd::prelude::*;

verus! {

/// One request handed to an agent.
pub struct AgentInput {
    pub message: String,
    pub context: Option<String>,
}

/// What the agent answered and how the attempt ended.
pub struct AgentResult {
    pub output: String,
    pub status: AgentStatus,
}

/// How handling one input ended.
pub enum AgentStatus {
    Success,
    Error(String),
    InProgress,
}

/// The core capability: handle one input and report a result.
pub trait Agent {
    fn handle_input(&mut self, input: AgentInput) -> (r: AgentResult);
}

/// An agent that echoes its input back, refusing restricted commands.
pub struct EchoAgent;

impl Agent for EchoAgent {
    fn handle_input(&mut self, input: AgentInput) -> (r: AgentResult)
        ensures
            contains_seq(input.message@, "shutdown"@) ==> r.output@.len() == 0 && (
            r.status matches AgentStatus::Error(m) && m@ == "Restricted command"@),
            !contains_seq(input.message@, "shutdown"@) ==> r.output@ == "Echo: "@
                + input.message@ && r.status is Success,
    {
        if str_contains(input.message.as_str(), "shutdown") {
            return AgentResult {
                output: String::new(),
                status: AgentStatus::Error(String::from_str("Restricted command")),
            };
        }
        let output = String::from_str("Echo: ").concat(input.message.as_str());
        AgentResult { output, status: AgentStatus::Success }
    }
}

/// An agent that walks a fixed list of plan steps.
pub struct PlanningAgent {
    pub steps: Vec<String>,
}

impl Agent for PlanningAgent {
    fn handle_input(&mut self, _input: AgentInput) -> (r: AgentResult)
        ensures
            old(self).steps@.len() == 0 ==> (r.output@ == "No viable plan"@ && (
            r.status matches AgentStatus::Error(m) && m@ == "Planning failed"@)),
            old(self).steps@.len() > 0 ==> (r.output@ == "Executed "@ + dec_rep(
                old(self).steps@.len(),
            ) + " steps"@ && r.status is Success),
    {
        if self.steps.len() == 0 {
            return AgentResult {
                output: String::from_str("No viable plan"),
                status: AgentStatus::Error(String::from_str("Planning failed")),
            };
        }
        let count = u64_to_dec(self.steps.len() as u64);
        let output = String::from_str("Executed ").concat(count.as_str()).concat(" steps");
        AgentResult { output, status: AgentStatus::Success }
    }
}

/// Extending behaviour with composition: an agent that can also call named
/// tools on string arguments.
pub trait ToolUser {
    fn use_tool(&mut self, name: &str, args: &[String]) -> (r: Result<String, String>);
}

/// Handles one input and, when it succeeded, notifies through the agent's own
/// tool channel.
pub fn run_agent<T: Agent + ToolUser>(agent: &mut T, input: AgentInput) {
    let result = agent.handle_input(input);
    if let AgentStatus::Success = result.status {
        let args = [result.output];
        let _ = agent.use_tool("notify", &args);
    }
}

/// One role an agent can currently play.
pub trait RoleHandler {
    fn handle(&mut self, input: AgentInput) -> (r: AgentResult);
}

/// An agent that delegates each input to its current role.
pub struct RoleShiftingAgent {
    pub current_role: Box<dyn RoleHandler>,
}

impl Agent for RoleShiftingAgent {
    fn handle_input(&mut self, input: AgentInput) -> (r: AgentResult) {
        self.current_role.handle(input)
    }
}

} // verus!
