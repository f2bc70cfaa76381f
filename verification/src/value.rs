//! The structured value carried between tools: a recursive tagged union over
//! null, booleans, integers, text, arrays and objects, together with its
//! mathematical model.
use vstd::prelude::*;

verus! {

broadcast use vstd::std_specs::vec::axiom_vec_index_decreases;

/// A structured value: tool arguments and tool results are trees of these.
#[derive(Debug)]
pub enum Value {
    Null,
    Bool(bool),
    Number(i64),
    Text(String),
    Array(Vec<Value>),
    Object(Vec<(String, Value)>),
}

/// The mathematical model of a `Value`: the same tree over `Seq` and `int`.
#[verifier::ext_equal]
pub enum ValueModel {
    Null,
    Bool(bool),
    Number(int),
    Text(Seq<char>),
    Array(Seq<ValueModel>),
    Object(Seq<(Seq<char>, ValueModel)>),
}

pub open spec fn model(v: Value) -> ValueModel
    decreases v,
{
    match v {
        Value::Null => ValueModel::Null,
        Value::Bool(b) => ValueModel::Bool(b),
        Value::Number(n) => ValueModel::Number(n as int),
        Value::Text(s) => ValueModel::Text(s@),
        Value::Array(elems) => ValueModel::Array(models_of(elems@)),
        Value::Object(entries) => ValueModel::Object(entry_models_of(entries@)),
    }
}

pub open spec fn models_of(s: Seq<Value>) -> Seq<ValueModel>
    decreases s,
{
    if s.len() == 0 {
        Seq::empty()
    } else {
        seq![model(s[0])] + models_of(s.drop_first())
    }
}

pub open spec fn entry_models_of(s: Seq<(String, Value)>) -> Seq<(Seq<char>, ValueModel)>
    decreases s,
{
    if s.len() == 0 {
        Seq::empty()
    } else {
        seq![(s[0].0@, model(s[0].1))] + entry_models_of(s.drop_first())
    }
}

pub broadcast proof fn lemma_models_of_len(s: Seq<Value>)
    ensures
        (#[trigger] models_of(s)).len() == s.len(),
    decreases s,
{
    if s.len() > 0 {
        lemma_models_of_len(s.drop_first());
    }
}

pub broadcast proof fn lemma_models_of_index(s: Seq<Value>, i: int)
    requires
        0 <= i < s.len(),
    ensures
        #[trigger] models_of(s)[i] == model(s[i]),
    decreases s,
{
    lemma_models_of_len(s);
    if i > 0 {
        lemma_models_of_index(s.drop_first(), i - 1);
    }
}

pub broadcast proof fn lemma_entry_models_of_len(s: Seq<(String, Value)>)
    ensures
        (#[trigger] entry_models_of(s)).len() == s.len(),
    decreases s,
{
    if s.len() > 0 {
        lemma_entry_models_of_len(s.drop_first());
    }
}

pub broadcast proof fn lemma_entry_models_of_index(s: Seq<(String, Value)>, i: int)
    requires
        0 <= i < s.len(),
    ensures
        #[trigger] entry_models_of(s)[i] == (s[i].0@, model(s[i].1)),
    decreases s,
{
    lemma_entry_models_of_len(s);
    if i > 0 {
        lemma_entry_models_of_index(s.drop_first(), i - 1);
    }
}

impl Value {
    /// A structurally equal copy of the value.
    pub fn duplicate(&self) -> (r: Value)
        ensures
            model(r) == model(*self),
        decreases *self,
    {
        match self {
            Value::Null => Value::Null,
            Value::Bool(b) => Value::Bool(*b),
            Value::Number(n) => Value::Number(*n),
            Value::Text(s) => Value::Text(s.clone()),
            Value::Array(elems) => {
                let mut out: Vec<Value> = Vec::new();
                let mut i: usize = 0;
                while i < elems.len()
                    invariant
                        i <= elems.len(),
                        out@.len() == i as int,
                        *self is Array && self->Array_0 == *elems,
                        forall|j: int| 0 <= j < i ==> model(#[trigger] out@[j]) == model(elems@[j]),
                    decreases elems.len() - i,
                {
                    proof {
                        assert(decreases_to!(*self => *elems));
                    }
                    out.push(elems[i].duplicate());
                    i = i + 1;
                }
                proof {
                    lemma_models_same(out@, elems@);
                }
                Value::Array(out)
            },
            Value::Object(entries) => {
                let mut out: Vec<(String, Value)> = Vec::new();
                let mut i: usize = 0;
                while i < entries.len()
                    invariant
                        i <= entries.len(),
                        out@.len() == i as int,
                        *self is Object && self->Object_0 == *entries,
                        forall|j: int| 0 <= j < i ==> (#[trigger] out@[j]).0@ == entries@[j].0@
                            && model(out@[j].1) == model(entries@[j].1),
                    decreases entries.len() - i,
                {
                    proof {
                        assert(decreases_to!(*self => *entries));
                    }
                    let copied = entries[i].1.duplicate();
                    out.push((entries[i].0.clone(), copied));
                    i = i + 1;
                }
                proof {
                    lemma_entry_models_same(out@, entries@);
                }
                Value::Object(out)
            },
        }
    }
}

pub proof fn lemma_models_same(a: Seq<Value>, b: Seq<Value>)
    requires
        a.len() == b.len(),
        forall|j: int| 0 <= j < a.len() ==> model(#[trigger] a[j]) == model(b[j]),
    ensures
        models_of(a) == models_of(b),
{
    broadcast use lemma_models_of_len, lemma_models_of_index;

    assert(models_of(a) =~= models_of(b));
}

pub proof fn lemma_entry_models_same(a: Seq<(String, Value)>, b: Seq<(String, Value)>)
    requires
        a.len() == b.len(),
        forall|j: int| 0 <= j < a.len() ==> (#[trigger] a[j]).0@ == b[j].0@ && model(a[j].1)
            == model(b[j].1),
    ensures
        entry_models_of(a) == entry_models_of(b),
{
    broadcast use lemma_entry_models_of_len, lemma_entry_models_of_index;

    assert(entry_models_of(a) =~= entry_models_of(b));
}

/// The value stored under `key` in an object's entries, taking the first
/// entry with that key; objects built by this library hold each key once.
pub open spec fn object_lookup(entries: Seq<(Seq<char>, ValueModel)>, key: Seq<char>) -> Option<
    ValueModel,
>
    decreases entries.len(),
{
    if entries.len() == 0 {
        None
    } else if entries[0].0 == key {
        Some(entries[0].1)
    } else {
        object_lookup(entries.drop_first(), key)
    }
}

/// The field of a value: an object yields the entry under `key`, every other
/// variant yields nothing.
pub open spec fn field_of(v: ValueModel, key: Seq<char>) -> Option<ValueModel> {
    match v {
        ValueModel::Object(entries) => object_lookup(entries, key),
        _ => None,
    }
}

impl Value {
    /// The field stored under `key`, when this value is an object that has
    /// one.
    pub fn get_field(&self, key: &str) -> (r: Option<&Value>)
        ensures
            match r {
                Some(f) => field_of(model(*self), key@) == Some(model(*f)),
                None => field_of(model(*self), key@) is None,
            },
    {
        match self {
            Value::Object(entries) => {
                let ghost m = entry_models_of(entries@);
                let n = entries.len();
                let mut i: usize = 0;
                proof {
                    broadcast use lemma_entry_models_of_len, lemma_entry_models_of_index;

                    assert(m.skip(0) =~= m);
                }
                while i < n
                    invariant
                        i <= n,
                        n == entries@.len(),
                        m == entry_models_of(entries@),
                        m.len() == n,
                        *self is Object && self->Object_0 == *entries,
                        object_lookup(m, key@) == object_lookup(m.skip(i as int), key@),
                    decreases n - i,
                {
                    proof {
                        broadcast use lemma_entry_models_of_len, lemma_entry_models_of_index;

                        assert(m.skip(i as int)[0] == m[i as int]);
                        assert(m.skip(i as int).drop_first() =~= m.skip(i + 1 as int));
                    }
                    if crate::text::str_eq(entries[i].0.as_str(), key) {
                        return Some(&entries[i].1);
                    }
                    i = i + 1;
                }
                None
            },
            _ => None,
        }
    }
}

} // verus!
