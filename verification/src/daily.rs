//! The daily planner agent's core: the agent shape and the prompt it sends.
//! Reading the console, the clock and the model endpoint is the host's work.
use vstd::prelude::*;

verus! {

/// An agent of this planner family: one request in, one result out.
pub trait Agent {
    fn handle_input(&mut self, input: AgentInput) -> (r: AgentResult);
}

/// One planning request, with optional context.
pub struct AgentInput {
    pub message: String,
    pub context: Option<String>,
}

/// The plan text and how the attempt ended.
pub struct AgentResult {
    pub response: String,
    pub status: AgentStatus,
}

/// How handling one request ended.
pub enum AgentStatus {
    Success,
    Error(String),
}

/// The planner: it wraps the request into a prompt around the current time
/// and reports the model's answer.
pub struct DailyPlannerAgent;

impl DailyPlannerAgent {
    pub fn new() -> (r: DailyPlannerAgent) {
        DailyPlannerAgent
    }
}

/// The prompt sent for one planning request, anchored at the time the host
/// read from its clock.
pub fn planner_prompt(now: &str, message: &str) -> (r: String)
    ensures
        r@ == "You are a daily planner assistant. Rely on the current time: "@ + now@
            + ", or based on the time that user specified. Based on the following request, generate a detailed plan as a table, table should be readable:\n"@
            + message@ + "\n"@,
{
    String::from_str("You are a daily planner assistant. Rely on the current time: ").concat(
        now,
    ).concat(
        ", or based on the time that user specified. Based on the following request, generate a detailed plan as a table, table should be readable:\n",
    ).concat(message).concat("\n")
}

} // verus!
