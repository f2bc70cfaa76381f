//! Plans and their execution: an ordered list of tool invocations, the
//! per-run execution context that accumulates their outputs, and the plan
//! executor that walks the steps in order.
use crate::resolve::{resolve_args, resolved};
use crate::task::{retry, TaskExecutor, TaskResult, TaskStatus, TollInvocation};
use crate::tools::{output_model, Tool, ToolInput, ToolOutput, ToolOutputModel, ToolRegistry};
use crate::value::{model, Value, ValueModel};
use vstd::prelude::*;

verus! {

/// One step of a plan: which tool to call, an argument template that may
/// embed `${key}` references, and the key under which the output is stored.
pub struct PlanStep {
    pub tool_name: String,
    pub args: Value,
    pub output_key: String,
}

/// An ordered list of steps meant to satisfy one goal. A plan is consumed,
/// never mutated, by the plan executor.
pub struct Plan {
    pub goal: String,
    pub steps: Vec<PlanStep>,
}

/// The per-run accumulator of step outputs: a mapping from output key to the
/// output stored last under that key. It is created empty at run start and
/// never shared outside its run.
pub struct ExecutionContext {
    entries: Vec<(String, ToolOutput)>,
}

pub open spec fn ctx_map(s: Seq<(String, ToolOutput)>) -> Map<Seq<char>, ToolOutputModel>
    decreases s.len(),
{
    if s.len() == 0 {
        Map::empty()
    } else {
        ctx_map(s.drop_last()).insert(s.last().0@, output_model(s.last().1))
    }
}

impl View for ExecutionContext {
    type V = Map<Seq<char>, ToolOutputModel>;

    closed spec fn view(&self) -> Map<Seq<char>, ToolOutputModel> {
        ctx_map(self.entries@)
    }
}

/// A key is known exactly when some entry wrote it.
proof fn lemma_ctx_map_dom(s: Seq<(String, ToolOutput)>, k: Seq<char>)
    ensures
        ctx_map(s).contains_key(k) <==> exists|i: int|
            0 <= i < s.len() && (#[trigger] s[i]).0@ == k,
    decreases s.len(),
{
    if s.len() > 0 {
        lemma_ctx_map_dom(s.drop_last(), k);
        if s.last().0@ == k {
            assert(s[s.len() - 1].0@ == k);
        } else {
            if ctx_map(s).contains_key(k) {
                let i = choose|i: int| 0 <= i < s.drop_last().len() && (#[trigger] s.drop_last(
                )[i]).0@ == k;
                assert(s[i].0@ == k);
            }
            if exists|i: int| 0 <= i < s.len() && (#[trigger] s[i]).0@ == k {
                let i = choose|i: int| 0 <= i < s.len() && (#[trigger] s[i]).0@ == k;
                assert(i < s.len() - 1);
                assert(s.drop_last()[i].0@ == k);
            }
        }
    }
}

/// The mapping holds the value of the last entry that wrote a key.
proof fn lemma_ctx_map_last_hit(s: Seq<(String, ToolOutput)>, i: int)
    requires
        0 <= i < s.len(),
        forall|j: int| i < j < s.len() ==> (#[trigger] s[j]).0@ != s[i].0@,
    ensures
        ctx_map(s).contains_key(s[i].0@),
        ctx_map(s)[s[i].0@] == output_model(s[i].1),
    decreases s.len(),
{
    if i == s.len() - 1 {
    } else {
        assert(s.last().0@ != s[i].0@);
        assert(s.drop_last()[i] == s[i]);
        assert(forall|j: int| i < j < s.drop_last().len() ==> (#[trigger] s.drop_last()[j]).0@
            != s.drop_last()[i].0@);
        lemma_ctx_map_last_hit(s.drop_last(), i);
    }
}

impl ExecutionContext {
    /// A fresh, empty context.
    pub fn new() -> (r: ExecutionContext)
        ensures
            r@ == Map::<Seq<char>, ToolOutputModel>::empty(),
    {
        ExecutionContext { entries: Vec::new() }
    }

    /// Stores `output` under `key`, replacing what an earlier step stored
    /// there: the last write wins.
    pub fn insert(&mut self, key: String, output: ToolOutput)
        ensures
            final(self)@ == old(self)@.insert(key@, output_model(output)),
    {
        let ghost before = self.entries@;
        let ghost kv = key@;
        let ghost ov = output_model(output);
        self.entries.push((key, output));
        proof {
            assert(self.entries@.drop_last() =~= before);
            assert(self.entries@.last().0@ == kv);
            assert(output_model(self.entries@.last().1) == ov);
        }
    }

    /// The output stored last under `key`, if any step stored one.
    pub fn get(&self, key: &str) -> (r: Option<&ToolOutput>)
        ensures
            self@.contains_key(key@) ==> (r matches Some(o) && output_model(*o) == self@[key@]),
            !self@.contains_key(key@) ==> r is None,
    {
        let n = self.entries.len();
        let mut i: usize = n;
        while i > 0
            invariant
                i <= n,
                n == self.entries@.len(),
                forall|j: int| i <= j < n ==> (#[trigger] self.entries@[j]).0@ != key@,
            decreases i,
        {
            i = i - 1;
            if crate::text::str_eq(self.entries[i].0.as_str(), key) {
                proof {
                    lemma_ctx_map_last_hit(self.entries@, i as int);
                }
                return Some(&self.entries[i].1);
            }
        }
        proof {
            lemma_ctx_map_dom(self.entries@, key@);
        }
        None
    }

    /// Whether every output stored in the context reports success.
    pub fn all_success(&self) -> (r: bool)
        ensures
            r == (forall|k: Seq<char>| #[trigger] self@.contains_key(k) ==> self@[k].success),
    {
        let n = self.entries.len();
        let mut i: usize = 0;
        while i < n
            invariant
                i <= n,
                n == self.entries@.len(),
                forall|j: int| 0 <= j < i ==> self@[(#[trigger] self.entries@[j]).0@].success,
                forall|j: int| 0 <= j < i ==> self@.contains_key(
                    (#[trigger] self.entries@[j]).0@,
                ),
            decreases n - i,
        {
            proof {
                lemma_ctx_map_dom(self.entries@, self.entries@[i as int].0@);
            }
            match self.get(self.entries[i].0.as_str()) {
                Some(current) => {
                    if !current.success {
                        return false;
                    }
                },
                None => {
                    proof {
                        assert(false);
                    }
                },
            }
            i = i + 1;
        }
        proof {
            assert forall|k: Seq<char>| #[trigger] self@.contains_key(k) implies self@[k].success by {
                lemma_ctx_map_dom(self.entries@, k);
                let j = choose|j: int| 0 <= j < self.entries@.len() && (#[trigger] self.entries@[
                j]).0@ == k;
            }
        }
        true
    }
}

/// The output synthesised for a step whose tool is absent from the registry.
pub open spec fn not_found_model(name: Seq<char>) -> ToolOutputModel {
    ToolOutputModel {
        result: ValueModel::Null,
        success: false,
        message: Some("tool not found: "@ + name),
    }
}

/// The tool-not-found output: a null result, no success, and a message naming
/// the missing tool.
pub fn not_found_output(name: &str) -> (r: ToolOutput)
    ensures
        output_model(r) == not_found_model(name@),
{
    let mut message = String::from_str("tool not found: ");
    message.append(name);
    ToolOutput { result: Value::Null, success: false, message: Some(message) }
}

/// What a task result stores in the context: the captured text — a failed
/// shell command's standard error included — together with the success flag
/// and the failure message.
pub open spec fn task_output_model(r: crate::task::TaskResult) -> ToolOutputModel {
    match r.status {
        TaskStatus::Success => ToolOutputModel {
            result: match r.output {
                Some(o) => ValueModel::Text(o@),
                None => ValueModel::Null,
            },
            success: true,
            message: None,
        },
        TaskStatus::Failed(f) => ToolOutputModel {
            result: match r.output {
                Some(o) => ValueModel::Text(o@),
                None => ValueModel::Null,
            },
            success: false,
            message: Some(f.message@),
        },
        TaskStatus::Skipped => ToolOutputModel {
            result: ValueModel::Null,
            success: false,
            message: Some("skipped"@),
        },
    }
}

/// Turns a finished primitive invocation into a tool output.
pub fn task_result_to_output(r: TaskResult) -> (out: ToolOutput)
    ensures
        output_model(out) == task_output_model(r),
{
    match r.status {
        TaskStatus::Success => ToolOutput {
            result: match r.output {
                Some(o) => Value::Text(o),
                None => Value::Null,
            },
            success: true,
            message: None,
        },
        TaskStatus::Failed(f) => ToolOutput {
            result: match r.output {
                Some(o) => Value::Text(o),
                None => Value::Null,
            },
            success: false,
            message: Some(f.message),
        },
        TaskStatus::Skipped => ToolOutput {
            result: Value::Null,
            success: false,
            message: Some(String::from_str("skipped")),
        },
    }
}

/// The output keys of a sequence of steps.
pub open spec fn step_keys(steps: Seq<PlanStep>) -> Seq<Seq<char>> {
    steps.map_values(|s: PlanStep| s.output_key@)
}

/// Whether step `j` is the last step of the plan writing its key.
pub open spec fn last_writer(steps: Seq<PlanStep>, j: int) -> bool {
    0 <= j < steps.len() && forall|j2: int|
        j < j2 < steps.len() ==> (#[trigger] steps[j2]).output_key@ != steps[j].output_key@
}

proof fn lemma_contains_push<A>(s: Seq<A>, x: A, k: A)
    ensures
        s.push(x).contains(k) <==> s.contains(k) || k == x,
{
    if s.push(x).contains(k) {
        let i = choose|i: int| 0 <= i < s.push(x).len() && s.push(x)[i] == k;
        if i < s.len() {
            assert(s[i] == k);
        }
    }
    if s.contains(k) {
        let i = choose|i: int| 0 <= i < s.len() && s[i] == k;
        assert(s.push(x)[i] == k);
    }
    if k == x {
        assert(s.push(x)[s.len() as int] == k);
    }
}

/// The context after the first `i` steps stored the given outputs, each
/// under its step's key, in order: later writes of a key supersede earlier
/// ones.
pub open spec fn ctx_after(steps: Seq<PlanStep>, outs: Seq<ToolOutputModel>, i: int) -> Map<
    Seq<char>,
    ToolOutputModel,
>
    decreases i,
{
    if i <= 0 {
        Map::empty()
    } else {
        ctx_after(steps, outs, i - 1).insert(steps[i - 1].output_key@, outs[i - 1])
    }
}

/// What step `j` may have stored, given the outputs of the steps before it:
/// an absent tool stores the synthesised not-found output; a tool that is
/// primitive on the resolved arguments answers through the task executor,
/// which promises nothing; any other tool answers by its own behaviour
/// specification on the resolved arguments.
pub open spec fn step_produces<T: Tool>(
    reg: ToolRegistry<T>,
    steps: Seq<PlanStep>,
    outs: Seq<ToolOutputModel>,
    j: int,
) -> bool {
    let name = steps[j].tool_name@;
    let args = resolved(model(steps[j].args), ctx_after(steps, outs, j));
    if !reg.tools().contains_key(name) {
        outs[j] == not_found_model(name)
    } else if reg.tools()[name].spec_primitive(args) {
        true
    } else {
        reg.tools()[name].spec_execute(args, outs[j])
    }
}

/// The context after `i` steps depends only on the first `i` outputs.
proof fn lemma_ctx_after_prefix(
    steps: Seq<PlanStep>,
    a: Seq<ToolOutputModel>,
    b: Seq<ToolOutputModel>,
    i: int,
)
    requires
        forall|k: int| 0 <= k < i ==> a[k] == b[k],
    ensures
        ctx_after(steps, a, i) == ctx_after(steps, b, i),
    decreases i,
{
    if i > 0 {
        lemma_ctx_after_prefix(steps, a, b, i - 1);
    }
}

/// Runs the plan's steps strictly in order against `registry`: each step's
/// arguments are resolved against the context accumulated so far, the tool is
/// looked up — a missing tool yields the synthesised not-found output — and
/// the output lands in the context under the step's key. A tool backed by a
/// primitive invocation is dispatched through `executor` under the retry
/// policy; every other tool is called directly. A failed step never
/// aborts the run; the context and the conjunction of all stored successes
/// are returned. A step with an empty tool name is a malformed plan and is
/// rejected before any step runs.
#[verifier::rlimit(50)]
pub fn execute_plan<T: Tool, E: TaskExecutor>(
    plan: Plan,
    registry: &ToolRegistry<T>,
    executor: &mut E,
) -> (r: Result<(ExecutionContext, bool), &'static str>)
    ensures
        (exists|i: int| 0 <= i < plan.steps@.len() && (#[trigger] plan.steps@[i]).tool_name@.len()
            == 0) <==> r is Err,
        r matches Err(e) ==> e@ == "plan step has an empty tool name"@,
        r matches Ok(p) ==> {
            &&& (forall|k: Seq<char>| #[trigger]
                p.0@.contains_key(k) <==> step_keys(plan.steps@).contains(k))
            &&& p.1 == (forall|k: Seq<char>| #[trigger]
                p.0@.contains_key(k) ==> p.0@[k].success)
            &&& (forall|j: int|
                last_writer(plan.steps@, j) && !registry.names().contains(
                    (#[trigger] plan.steps@[j]).tool_name@,
                ) ==> p.0@[plan.steps@[j].output_key@] == not_found_model(
                    plan.steps@[j].tool_name@,
                ))
            &&& (exists|outs: Seq<ToolOutputModel>|
                {
                    &&& outs.len() == plan.steps@.len()
                    &&& p.0@ == ctx_after(plan.steps@, outs, plan.steps@.len() as int)
                    &&& forall|j: int|
                        0 <= j < outs.len() ==> #[trigger] step_produces(
                            *registry,
                            plan.steps@,
                            outs,
                            j,
                        )
                })
        },
{
    let ghost steps = plan.steps@;
    let mut v: usize = 0;
    let n = plan.steps.len();
    while v < n
        invariant
            v <= n,
            n == steps.len(),
            plan.steps@ == steps,
            forall|i: int| 0 <= i < v ==> (#[trigger] steps[i]).tool_name@.len() != 0,
        decreases n - v,
    {
        if plan.steps[v].tool_name.as_str().unicode_len() == 0 {
            return Err("plan step has an empty tool name");
        }
        v = v + 1;
    }
    let mut ctx = ExecutionContext::new();
    let mut i: usize = 0;
    let ghost mut outs: Seq<ToolOutputModel> = Seq::empty();
    while i < n
        invariant
            i <= n,
            n == steps.len(),
            plan.steps@ == steps,
            outs.len() == i as int,
            ctx@ == ctx_after(steps, outs, i as int),
            forall|j: int| 0 <= j < i ==> #[trigger] step_produces(*registry, steps, outs, j),
            forall|k: Seq<char>| #[trigger]
                ctx@.contains_key(k) <==> step_keys(steps.subrange(0, i as int)).contains(k),
            forall|j: int|
                0 <= j < i && (forall|j2: int|
                    j < j2 < i ==> (#[trigger] steps[j2]).output_key@ != steps[j].output_key@)
                    && !registry.names().contains((#[trigger] steps[j]).tool_name@)
                    ==> ctx@[steps[j].output_key@] == not_found_model(steps[j].tool_name@),
        decreases n - i,
    {
        let step = &plan.steps[i];
        let ghost prior = ctx@;
        let resolved_args = resolve_args(&step.args, &ctx);
        let ghost args_model = resolved(model(steps[i as int].args), prior);
        let output: ToolOutput = match registry.lookup(step.tool_name.as_str()) {
            None => not_found_output(step.tool_name.as_str()),
            Some(tool) => match tool.as_invocation(&resolved_args) {
                Some(invocation) => task_result_to_output(retry(&invocation, executor)),
                None => tool.execute(ToolInput { args: resolved_args }),
            },
        };
        let ghost found = registry.names().contains(steps[i as int].tool_name@);
        proof {
            if !found {
                assert(output_model(output) == not_found_model(steps[i as int].tool_name@));
            }
            let prev_outs = outs;
            outs = outs.push(output_model(output));
            lemma_ctx_after_prefix(steps, prev_outs, outs, i as int);
            assert(ctx_after(steps, outs, i as int) == prior);
            assert(step_produces(*registry, steps, outs, i as int));
            assert forall|j: int| 0 <= j < i implies #[trigger] step_produces(
                *registry,
                steps,
                outs,
                j,
            ) by {
                assert(step_produces(*registry, steps, prev_outs, j));
                assert(outs[j] == prev_outs[j]);
                lemma_ctx_after_prefix(steps, prev_outs, outs, j);
            }
        }
        ctx.insert(step.output_key.clone(), output);
        proof {
            assert(ctx@ == ctx_after(steps, outs, i + 1 as int));
            assert(step_keys(steps.subrange(0, i + 1 as int)) =~= step_keys(
                steps.subrange(0, i as int),
            ).push(steps[i as int].output_key@));
            assert forall|k: Seq<char>| #[trigger]
                ctx@.contains_key(k) <==> step_keys(steps.subrange(0, i + 1 as int)).contains(
                k,
            ) by {
                lemma_contains_push(
                    step_keys(steps.subrange(0, i as int)),
                    steps[i as int].output_key@,
                    k,
                );
            }
        }
        i = i + 1;
    }
    proof {
        assert(steps.subrange(0, n as int) =~= steps);
        assert(outs.len() == steps.len() && ctx@ == ctx_after(steps, outs, steps.len() as int)
            && forall|j: int|
            0 <= j < outs.len() ==> #[trigger] step_produces(*registry, steps, outs, j));
    }
    let ok = ctx.all_success();
    Ok((ctx, ok))
}

} // verus!
