//! Tools and the tool registry: a tool is a named capability over structured
//! values, and the registry maps names to tools.
use crate::task::TollInvocation;
use crate::value::{model, Value, ValueModel};
use vstd::prelude::*;

verus! {

/// The arguments handed to a tool, as one structured value.
pub struct ToolInput {
    pub args: Value,
}

/// What a tool invocation produced: a structured result, whether it
/// succeeded, and an optional message explaining a failure.
pub struct ToolOutput {
    pub result: Value,
    pub success: bool,
    pub message: Option<String>,
}

/// The mathematical model of a tool output.
#[verifier::ext_equal]
pub struct ToolOutputModel {
    pub result: ValueModel,
    pub success: bool,
    pub message: Option<Seq<char>>,
}

pub open spec fn output_model(o: ToolOutput) -> ToolOutputModel {
    ToolOutputModel {
        result: model(o.result),
        success: o.success,
        message: match o.message {
            Some(m) => Some(m@),
            None => None,
        },
    }
}

/// A named capability: callers hand it structured arguments and receive a
/// structured output. Implementations decide what the arguments mean, and
/// say so through their behaviour specifications.
pub trait Tool {
    /// The name under which the tool is registered, fixed per tool value.
    spec fn spec_name(&self) -> Seq<char>;

    /// Whether these arguments turn the tool into a primitive invocation.
    spec fn spec_primitive(&self, args: ValueModel) -> bool;

    /// What running the tool directly on the given arguments may produce.
    spec fn spec_execute(&self, args: ValueModel, output: ToolOutputModel) -> bool;

    fn name(&self) -> (r: String)
        ensures
            r@ == self.spec_name(),
    ;

    fn description(&self) -> (r: &'static str);

    /// The primitive invocation this tool stands for on the given arguments,
    /// if it is backed by one: such tools are dispatched through the task
    /// executor and its retry policy rather than called directly.
    fn as_invocation(&self, args: &Value) -> (r: Option<TollInvocation>)
        ensures
            r is Some <==> self.spec_primitive(model(*args)),
    ;

    fn execute(&self, input: ToolInput) -> (r: ToolOutput)
        ensures
            self.spec_execute(model(input.args), output_model(r)),
    ;
}

impl Tool for Box<dyn Tool> {
    open spec fn spec_name(&self) -> Seq<char> {
        (**self).spec_name()
    }

    open spec fn spec_primitive(&self, args: ValueModel) -> bool {
        (**self).spec_primitive(args)
    }

    open spec fn spec_execute(&self, args: ValueModel, output: ToolOutputModel) -> bool {
        (**self).spec_execute(args, output)
    }

    fn name(&self) -> (r: String)
        ensures
            r@ == self.spec_name(),
    {
        (**self).name()
    }

    fn description(&self) -> (r: &'static str) {
        (**self).description()
    }

    fn as_invocation(&self, args: &Value) -> (r: Option<TollInvocation>)
        ensures
            r is Some <==> self.spec_primitive(model(*args)),
    {
        (**self).as_invocation(args)
    }

    fn execute(&self, input: ToolInput) -> (r: ToolOutput)
        ensures
            self.spec_execute(model(input.args), output_model(r)),
    {
        (**self).execute(input)
    }
}

/// A name-to-tool mapping. One registry is shared by every concurrent plan
/// run; the host serialises access through a reader/writer lock, so the
/// operations here describe one isolated read or write.
pub struct ToolRegistry<T: Tool> {
    entries: Vec<(String, T)>,
}

pub open spec fn reg_map<T: Tool>(entries: Seq<(String, T)>) -> Map<Seq<char>, T>
    decreases entries.len(),
{
    if entries.len() == 0 {
        Map::empty()
    } else {
        reg_map(entries.drop_last()).insert(entries.last().0@, entries.last().1)
    }
}

/// A name is bound exactly when some registration bound it.
proof fn lemma_reg_map_dom<T: Tool>(entries: Seq<(String, T)>, k: Seq<char>)
    ensures
        reg_map(entries).contains_key(k) <==> exists|i: int|
            0 <= i < entries.len() && (#[trigger] entries[i]).0@ == k,
    decreases entries.len(),
{
    if entries.len() > 0 {
        lemma_reg_map_dom(entries.drop_last(), k);
        if entries.last().0@ == k {
            assert(entries[entries.len() - 1].0@ == k);
        } else {
            if reg_map(entries).contains_key(k) {
                let i = choose|i: int|
                    0 <= i < entries.drop_last().len() && (#[trigger] entries.drop_last()[i]).0@
                        == k;
                assert(entries[i].0@ == k);
            }
            if exists|i: int| 0 <= i < entries.len() && (#[trigger] entries[i]).0@ == k {
                let i = choose|i: int| 0 <= i < entries.len() && (#[trigger] entries[i]).0@ == k;
                assert(i < entries.len() - 1);
                assert(entries.drop_last()[i].0@ == k);
            }
        }
    }
}

/// A name is bound to the tool registered last under it.
proof fn lemma_reg_map_last_hit<T: Tool>(entries: Seq<(String, T)>, i: int)
    requires
        0 <= i < entries.len(),
        forall|j: int| i < j < entries.len() ==> (#[trigger] entries[j]).0@ != entries[i].0@,
    ensures
        reg_map(entries).contains_key(entries[i].0@),
        reg_map(entries)[entries[i].0@] == entries[i].1,
    decreases entries.len(),
{
    if i == entries.len() - 1 {
    } else {
        assert(entries.last().0@ != entries[i].0@);
        assert(entries.drop_last()[i] == entries[i]);
        assert(forall|j: int| i < j < entries.drop_last().len() ==> (#[trigger] entries.drop_last(
        )[j]).0@ != entries.drop_last()[i].0@);
        lemma_reg_map_last_hit(entries.drop_last(), i);
    }
}

impl<T: Tool> ToolRegistry<T> {
    /// The mapping from name to the tool registered last under it.
    pub closed spec fn tools(&self) -> Map<Seq<char>, T> {
        reg_map(self.entries@)
    }

    /// The set of registered tool names.
    pub open spec fn names(&self) -> Set<Seq<char>> {
        self.tools().dom()
    }

    pub fn new() -> (r: ToolRegistry<T>)
        ensures
            r.tools() == Map::<Seq<char>, T>::empty(),
    {
        ToolRegistry { entries: Vec::new() }
    }

    /// Binds the tool's own name to the tool, overwriting any earlier
    /// binding of that name and keeping every other binding.
    pub fn register(&mut self, tool: T)
        ensures
            final(self).tools() == old(self).tools().insert(tool.spec_name(), tool),
    {
        let name = tool.name();
        let ghost sn = tool.spec_name();
        let ghost before = self.entries@;
        self.entries.push((name, tool));
        proof {
            assert(self.entries@.drop_last() =~= before);
            assert(self.entries@.last().0@ == sn);
        }
    }

    /// The tool registered last under that name, if any.
    pub fn lookup(&self, name: &str) -> (r: Option<&T>)
        ensures
            self.tools().contains_key(name@) ==> (r matches Some(t) && *t == self.tools()[name@]),
            !self.tools().contains_key(name@) ==> r is None,
    {
        let n = self.entries.len();
        let mut i: usize = n;
        while i > 0
            invariant
                i <= n,
                n == self.entries@.len(),
                forall|j: int| i <= j < n ==> (#[trigger] self.entries@[j]).0@ != name@,
            decreases i,
        {
            i = i - 1;
            if crate::text::str_eq(self.entries[i].0.as_str(), name) {
                proof {
                    lemma_reg_map_last_hit(self.entries@, i as int);
                }
                return Some(&self.entries[i].1);
            }
        }
        proof {
            lemma_reg_map_dom(self.entries@, name@);
        }
        None
    }
}

/// A fresh, empty registry.
pub fn new_registry<T: Tool>() -> (r: ToolRegistry<T>)
    ensures
        r.tools() == Map::<Seq<char>, T>::empty(),
{
    ToolRegistry::new()
}

/// Binds `tool` in `registry` under the tool's own name.
pub fn register_tool<T: Tool>(registry: &mut ToolRegistry<T>, tool: T)
    ensures
        final(registry).tools() == old(registry).tools().insert(tool.spec_name(), tool),
{
    registry.register(tool)
}

/// Looks `name` up and, when found, runs that tool on `args` directly.
pub fn get_tool<T: Tool>(registry: &ToolRegistry<T>, name: &str, args: Value) -> (r: Option<
    ToolOutput,
>)
    ensures
        registry.tools().contains_key(name@) ==> (r matches Some(out) && registry.tools().index(
            name@,
        ).spec_execute(model(args), output_model(out))),
        !registry.tools().contains_key(name@) ==> r is None,
{
    match registry.lookup(name) {
        Some(tool) => Some(tool.execute(ToolInput { args })),
        None => None,
    }
}

/// Looks `name` up and, when found, runs that tool on `args` directly.
pub fn call_tool_by_name<T: Tool>(registry: &ToolRegistry<T>, name: &str, args: Value) -> (r:
    Option<ToolOutput>)
    ensures
        registry.tools().contains_key(name@) ==> (r matches Some(out) && registry.tools().index(
            name@,
        ).spec_execute(model(args), output_model(out))),
        !registry.tools().contains_key(name@) ==> r is None,
{
    get_tool(registry, name, args)
}

} // verus!
