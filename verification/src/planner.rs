//! Planning: the planner interface, a template-based keyword planner, and an
//! agent that plans and then runs the plan.
use crate::agents::{Agent, AgentInput, AgentResult, AgentStatus};
use crate::plan::{execute_plan, Plan, PlanStep};
use crate::task::TaskExecutor;
use crate::text::{contains_seq, str_contains};
use crate::tools::{Tool, ToolRegistry};
use crate::value::{entry_models_of, model, Value, ValueModel};
use vstd::prelude::*;

verus! {

/// Maps a free-form goal to a plan, or to nothing when the goal is not
/// recognised.
pub trait Planner {
    fn generate_plan(&self, goal: &str) -> (r: Option<Plan>);
}

/// The plan the keyword planner produces for log summarising: read the log
/// file, then summarise what was read.
pub open spec fn summarize_log_plan(p: Plan, goal: Seq<char>) -> bool {
    &&& p.goal@ == goal
    &&& p.steps@.len() == 2
    &&& p.steps@[0].tool_name@ == "read_file"@
    &&& model(p.steps@[0].args) == ValueModel::Object(
        seq![("path"@, ValueModel::Text("system.log"@))],
    )
    &&& p.steps@[0].output_key@ == "log content"@
    &&& p.steps@[1].tool_name@ == "summarize"@
    &&& model(p.steps@[1].args) == ValueModel::Object(
        seq![("text"@, ValueModel::Text("${log_content}"@))],
    )
    &&& p.steps@[1].output_key@ == "summary"@
}

/// The plan the keyword planner produces for disk usage analysis: check the
/// disk, then summarise the finding.
pub open spec fn disk_usage_plan(p: Plan, goal: Seq<char>) -> bool {
    &&& p.goal@ == goal
    &&& p.steps@.len() == 2
    &&& p.steps@[0].tool_name@ == "check_disk"@
    &&& model(p.steps@[0].args) == ValueModel::Object(Seq::empty())
    &&& p.steps@[0].output_key@ == "disk_info"@
    &&& p.steps@[1].tool_name@ == "summarize"@
    &&& model(p.steps@[1].args) == ValueModel::Object(
        seq![("text"@, ValueModel::Text("${disk_info}"@))],
    )
    &&& p.steps@[1].output_key@ == "disk_summary"@
}

/// A template-based local planner: it recognises two kinds of goal by
/// keyword and fills a fixed two-step template for each.
pub struct KeywordPlanner;

fn text_entry(key: &str, value: &str) -> (r: Value)
    ensures
        model(r) == ValueModel::Object(seq![(key@, ValueModel::Text(value@))]),
{
    let mut entries: Vec<(String, Value)> = Vec::new();
    entries.push((String::from_str(key), Value::Text(String::from_str(value))));
    proof {
        assert(entries@.len() == 1);
        assert(entries@[0].0@ == key@);
        assert(model(entries@[0].1) == ValueModel::Text(value@));
        assert(entries@.drop_first() =~= Seq::<(String, Value)>::empty());
        assert(entry_models_of(Seq::<(String, Value)>::empty())
            == Seq::<(Seq<char>, ValueModel)>::empty());
        assert(entry_models_of(entries@) == seq![(entries@[0].0@, model(entries@[0].1))]
            + entry_models_of(entries@.drop_first()));
        assert(entry_models_of(entries@) =~~= seq![(key@, ValueModel::Text(value@))]);
    }
    Value::Object(entries)
}

impl Planner for KeywordPlanner {
    fn generate_plan(&self, goal: &str) -> (r: Option<Plan>)
        ensures
            contains_seq(goal@, "summarize log file"@) ==> (r matches Some(p)
                && summarize_log_plan(p, goal@)),
            !contains_seq(goal@, "summarize log file"@) && contains_seq(
                goal@,
                "analize disk usage"@,
            ) ==> (r matches Some(p) && disk_usage_plan(p, goal@)),
            !contains_seq(goal@, "summarize log file"@) && !contains_seq(
                goal@,
                "analize disk usage"@,
            ) ==> r is None,
    {
        if str_contains(goal, "summarize log file") {
            let mut steps: Vec<PlanStep> = Vec::new();
            steps.push(
                PlanStep {
                    tool_name: String::from_str("read_file"),
                    args: text_entry("path", "system.log"),
                    output_key: String::from_str("log content"),
                },
            );
            steps.push(
                PlanStep {
                    tool_name: String::from_str("summarize"),
                    args: text_entry("text", "${log_content}"),
                    output_key: String::from_str("summary"),
                },
            );
            Some(Plan { goal: String::from_str(goal), steps })
        } else if str_contains(goal, "analize disk usage") {
            let empty_args: Vec<(String, Value)> = Vec::new();
            proof {
                assert(entry_models_of(empty_args@) =~= Seq::<(Seq<char>, ValueModel)>::empty());
            }
            let mut steps: Vec<PlanStep> = Vec::new();
            steps.push(
                PlanStep {
                    tool_name: String::from_str("check_disk"),
                    args: Value::Object(empty_args),
                    output_key: String::from_str("disk_info"),
                },
            );
            steps.push(
                PlanStep {
                    tool_name: String::from_str("summarize"),
                    args: text_entry("text", "${disk_info}"),
                    output_key: String::from_str("disk_summary"),
                },
            );
            Some(Plan { goal: String::from_str(goal), steps })
        } else {
            None
        }
    }
}

/// An agent that asks its planner for a plan and, when one comes back, runs
/// it against its registry, continuing past failed steps.
pub struct PlanningAgent<P: Planner, T: Tool, E: TaskExecutor> {
    pub planner: P,
    pub registry: ToolRegistry<T>,
    pub executor: E,
}

impl<P: Planner, T: Tool, E: TaskExecutor> Agent for PlanningAgent<P, T, E> {
    fn handle_input(&mut self, input: AgentInput) -> (r: AgentResult)
        ensures
            r.status is Success <==> (r.output@ == "plan executed"@ || r.output@
                == "plan executed with failed steps"@),
            r.status matches AgentStatus::Error(m) ==> ((m@ == "Malformed plan"@ && r.output@
                == "plan step has an empty tool name"@) || (m@ == "Unrecognized goal"@
                && r.output@ == "Unable to plan for this goal"@)),
            r.status is Success || r.status is Error,
    {
        proof {
            reveal_strlit("plan executed");
            reveal_strlit("plan executed with failed steps");
            reveal_strlit("plan step has an empty tool name");
            reveal_strlit("Unable to plan for this goal");
            assert("plan executed"@.len() == 13);
            assert("plan executed with failed steps"@.len() == 31);
            assert("plan step has an empty tool name"@.len() == 32);
            assert("Unable to plan for this goal"@.len() == 28);
        }
        match self.planner.generate_plan(input.message.as_str()) {
            Some(plan) => match execute_plan(plan, &self.registry, &mut self.executor) {
                Ok((_, ok)) => AgentResult {
                    output: if ok {
                        String::from_str("plan executed")
                    } else {
                        String::from_str("plan executed with failed steps")
                    },
                    status: AgentStatus::Success,
                },
                Err(e) => AgentResult {
                    output: String::from_str(e),
                    status: AgentStatus::Error(String::from_str("Malformed plan")),
                },
            },
            None => AgentResult {
                output: String::from_str("Unable to plan for this goal"),
                status: AgentStatus::Error(String::from_str("Unrecognized goal")),
            },
        }
    }
}

} // verus!
