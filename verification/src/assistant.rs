//! The reactive file assistant's core: its tool invocations, its agent
//! shapes, and the two-step decision chain that first asks the model for a
//! command pipeline and then has it executed. The model call and the shell
//! run themselves are behind the executor the host implements.
use vstd::prelude::*;

verus! {

/// What the assistant can invoke: a shell command line, or a model request.
#[derive(Debug)]
pub enum ToolInvocation {
    ShellCommand(String),
    OllamaRequest(String),
}

/// A name-to-invocation table.
pub struct Registers {
    pub registers: Vec<(String, ToolInvocation)>,
}

/// Runs one invocation; the host implements this over the model endpoint and
/// the shell, rehearsals over a script.
pub trait TaskExecutor {
    fn execute_tool(&mut self, tool: ToolInvocation) -> (r: TaskResult);
}

/// What one invocation produced.
#[derive(Debug)]
pub struct TaskResult {
    pub output: Option<String>,
    pub status: TaskStatus,
}

/// How one invocation ended.
#[derive(Debug)]
pub enum TaskStatus {
    Success,
    Failed(String),
}

/// One request to the assistant.
pub struct AgentInput {
    pub content: String,
}

/// The assistant's answer.
#[derive(Debug)]
pub struct AgentOutput {
    pub response: String,
    pub status: AgentStatus,
}

/// How the assistant's attempt ended.
#[derive(Debug)]
pub enum AgentStatus {
    Success,
    Failed(String),
}

/// An agent of the assistant family.
pub trait Agent {
    fn handle_input(&mut self, input: AgentInput) -> (r: AgentOutput);
}

/// The reactive file assistant: a named agent that turns a request into a
/// model prompt, the answer into a shell pipeline, and the pipeline into an
/// invocation.
pub struct ReactiveAgent {
    name: String,
    description: String,
}

impl ReactiveAgent {
    /// The agent's name.
    pub closed spec fn spec_name(&self) -> Seq<char> {
        self.name@
    }

    /// The agent's description.
    pub closed spec fn spec_description(&self) -> Seq<char> {
        self.description@
    }

    pub fn new(name: String, description: String) -> (r: ReactiveAgent)
        ensures
            r.spec_name() == name@,
            r.spec_description() == description@,
    {
        ReactiveAgent { name, description }
    }
}

/// The prompt wrapped around one user request.
pub fn assistant_prompt(content: &str) -> (r: String)
    ensures
        r@
            == "You are a LINUX File Assistant. Tt must be a pipeline of bash command separated with comma, without any non-bash text! User Prompt: "@
            + content@,
{
    String::from_str(
        "You are a LINUX File Assistant. Tt must be a pipeline of bash command separated with comma, without any non-bash text! User Prompt: ",
    ).concat(content)
}

/// Handles one request through `executor`: the model is asked for a command
/// pipeline, and when that succeeded the pipeline is run as a shell command.
/// The answer always names the agent and echoes the request; the status
/// reports the first step that failed, if any.
pub fn run_assistant<E: TaskExecutor>(
    agent: &ReactiveAgent,
    executor: &mut E,
    input: AgentInput,
) -> (r: AgentOutput)
    ensures
        r.response@ == agent.spec_name() + " processed input: "@ + input.content@,
{
    let prompt = assistant_prompt(input.content.as_str());
    let response = String::from_str(agent.name.as_str()).concat(" processed input: ").concat(
        input.content.as_str(),
    );

    let first = executor.execute_tool(ToolInvocation::OllamaRequest(prompt));
    let commands = match first.status {
        TaskStatus::Success => {
            match first.output {
                Some(o) => o,
                None => String::new(),
            }
        },
        TaskStatus::Failed(e) => {
            return AgentOutput {
                response,
                status: AgentStatus::Failed(
                    String::from_str("Failed to process input: ").concat(e.as_str()),
                ),
            };
        },
    };

    let second = executor.execute_tool(ToolInvocation::ShellCommand(commands));
    match second.status {
        TaskStatus::Success => AgentOutput { response, status: AgentStatus::Success },
        TaskStatus::Failed(e) => AgentOutput {
            response,
            status: AgentStatus::Failed(
                String::from_str("Failed to execute shell command: ").concat(e.as_str()),
            ),
        },
    }
}

} // verus!
