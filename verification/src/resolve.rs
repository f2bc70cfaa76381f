//! The argument resolver: substitutes `${key}` references in a step's
//! argument tree with prior step outputs, recursively and type-preservingly.
use crate::plan::ExecutionContext;
use crate::text::{chars_vec, string_from_chars};
use crate::tools::ToolOutputModel;
use crate::value::{
    entry_models_of, lemma_entry_models_of_index, lemma_entry_models_of_len,
    lemma_models_of_index, lemma_models_of_len, model, models_of, Value, ValueModel,
};
use vstd::prelude::*;

verus! {

broadcast use vstd::std_specs::vec::axiom_vec_index_decreases;

/// Whether a string is exactly one `${name}` reference: the prefix `${`, the
/// suffix `}`, and nothing else around them.
pub open spec fn is_reference(s: Seq<char>) -> bool {
    s.len() >= 3 && s[0] == '$' && s[1] == '{' && s[s.len() - 1] == '}'
}

/// The name between the braces of a reference.
pub open spec fn reference_name(s: Seq<char>) -> Seq<char> {
    s.subrange(2, s.len() - 1)
}

/// A resolved value: a string that is exactly a reference becomes the
/// referenced output's result — keeping its type — or null when the name is
/// absent; arrays and objects are resolved element by element; everything
/// else passes through unchanged.
pub open spec fn resolved(t: ValueModel, ctx: Map<Seq<char>, ToolOutputModel>) -> ValueModel
    decreases t,
{
    match t {
        ValueModel::Text(s) => {
            if is_reference(s) {
                if ctx.contains_key(reference_name(s)) {
                    ctx[reference_name(s)].result
                } else {
                    ValueModel::Null
                }
            } else {
                t
            }
        },
        ValueModel::Array(elems) => ValueModel::Array(resolved_seq(elems, ctx)),
        ValueModel::Object(entries) => ValueModel::Object(resolved_entries(entries, ctx)),
        _ => t,
    }
}

pub open spec fn resolved_seq(ts: Seq<ValueModel>, ctx: Map<Seq<char>, ToolOutputModel>) -> Seq<
    ValueModel,
>
    decreases ts,
{
    if ts.len() == 0 {
        Seq::empty()
    } else {
        seq![resolved(ts[0], ctx)] + resolved_seq(ts.drop_first(), ctx)
    }
}

pub open spec fn resolved_entries(
    ts: Seq<(Seq<char>, ValueModel)>,
    ctx: Map<Seq<char>, ToolOutputModel>,
) -> Seq<(Seq<char>, ValueModel)>
    decreases ts,
{
    if ts.len() == 0 {
        Seq::empty()
    } else {
        seq![(ts[0].0, resolved(ts[0].1, ctx))] + resolved_entries(ts.drop_first(), ctx)
    }
}

pub broadcast proof fn lemma_resolved_seq_len(ts: Seq<ValueModel>, ctx: Map<Seq<char>,
    ToolOutputModel>)
    ensures
        (#[trigger] resolved_seq(ts, ctx)).len() == ts.len(),
    decreases ts,
{
    if ts.len() > 0 {
        lemma_resolved_seq_len(ts.drop_first(), ctx);
    }
}

pub broadcast proof fn lemma_resolved_seq_index(
    ts: Seq<ValueModel>,
    ctx: Map<Seq<char>, ToolOutputModel>,
    i: int,
)
    requires
        0 <= i < ts.len(),
    ensures
        #[trigger] resolved_seq(ts, ctx)[i] == resolved(ts[i], ctx),
    decreases ts,
{
    lemma_resolved_seq_len(ts, ctx);
    if i > 0 {
        lemma_resolved_seq_index(ts.drop_first(), ctx, i - 1);
    }
}

pub broadcast proof fn lemma_resolved_entries_len(
    ts: Seq<(Seq<char>, ValueModel)>,
    ctx: Map<Seq<char>, ToolOutputModel>,
)
    ensures
        (#[trigger] resolved_entries(ts, ctx)).len() == ts.len(),
    decreases ts,
{
    if ts.len() > 0 {
        lemma_resolved_entries_len(ts.drop_first(), ctx);
    }
}

pub broadcast proof fn lemma_resolved_entries_index(
    ts: Seq<(Seq<char>, ValueModel)>,
    ctx: Map<Seq<char>, ToolOutputModel>,
    i: int,
)
    requires
        0 <= i < ts.len(),
    ensures
        #[trigger] resolved_entries(ts, ctx)[i] == (ts[i].0, resolved(ts[i].1, ctx)),
    decreases ts,
{
    lemma_resolved_entries_len(ts, ctx);
    if i > 0 {
        lemma_resolved_entries_index(ts.drop_first(), ctx, i - 1);
    }
}

/// Substitutes `${key}` references in `template` with the results recorded in
/// `context`, depending on nothing but the two arguments.
pub fn resolve_args(template: &Value, context: &ExecutionContext) -> (r: Value)
    ensures
        model(r) == resolved(model(*template), context@),
    decreases *template,
{
    match template {
        Value::Null => Value::Null,
        Value::Bool(b) => Value::Bool(*b),
        Value::Number(n) => Value::Number(*n),
        Value::Text(s) => {
            let cs = chars_vec(s.as_str());
            let n = cs.len();
            if n >= 3 && cs[0] == '$' && cs[1] == '{' && cs[n - 1] == '}' {
                let mut name_chars: Vec<char> = Vec::new();
                let mut i: usize = 2;
                while i < n - 1
                    invariant
                        2 <= i <= n - 1,
                        n == cs@.len(),
                        name_chars@ == cs@.subrange(2, i as int),
                    decreases n - i,
                {
                    name_chars.push(cs[i]);
                    proof {
                        assert(name_chars@ =~= cs@.subrange(2, i + 1 as int));
                    }
                    i = i + 1;
                }
                let name = string_from_chars(&name_chars);
                proof {
                    assert(name@ == reference_name(s@));
                }
                match context.get(name.as_str()) {
                    Some(output) => output.result.duplicate(),
                    None => Value::Null,
                }
            } else {
                Value::Text(s.clone())
            }
        },
        Value::Array(elems) => {
            let mut out: Vec<Value> = Vec::new();
            let mut i: usize = 0;
            while i < elems.len()
                invariant
                    i <= elems.len(),
                    out@.len() == i as int,
                    *template is Array && template->Array_0 == *elems,
                    forall|j: int| 0 <= j < i ==> model(#[trigger] out@[j]) == resolved(
                        model(elems@[j]),
                        context@,
                    ),
                decreases elems.len() - i,
            {
                proof {
                    assert(decreases_to!(*template => *elems));
                }
                out.push(resolve_args(&elems[i], context));
                i = i + 1;
            }
            proof {
                broadcast use
                    lemma_models_of_len,
                    lemma_models_of_index,
                    lemma_resolved_seq_len,
                    lemma_resolved_seq_index,
                ;

                assert(models_of(out@) =~= resolved_seq(models_of(elems@), context@));
            }
            Value::Array(out)
        },
        Value::Object(entries) => {
            let mut out: Vec<(String, Value)> = Vec::new();
            let mut i: usize = 0;
            while i < entries.len()
                invariant
                    i <= entries.len(),
                    out@.len() == i as int,
                    *template is Object && template->Object_0 == *entries,
                    forall|j: int| 0 <= j < i ==> (#[trigger] out@[j]).0@ == entries@[j].0@
                        && model(out@[j].1) == resolved(model(entries@[j].1), context@),
                decreases entries.len() - i,
            {
                proof {
                    assert(decreases_to!(*template => *entries));
                }
                let rv = resolve_args(&entries[i].1, context);
                out.push((entries[i].0.clone(), rv));
                i = i + 1;
            }
            proof {
                broadcast use
                    lemma_entry_models_of_len,
                    lemma_entry_models_of_index,
                    lemma_resolved_entries_len,
                    lemma_resolved_entries_index,
                ;

                assert(entry_models_of(out@) =~= resolved_entries(
                    entry_models_of(entries@),
                    context@,
                ));
            }
            Value::Object(out)
        },
    }
}

} // verus!
