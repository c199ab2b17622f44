//! Runtime values and the opaque identifiers handed out by the catalog layer.

use vstd::prelude::*;

use crate::op::str_lt;

verus! {

/// Opaque identifier of a table; nothing is assumed of it beyond equality.
#[derive(Clone, Copy, PartialEq, Eq, Structural, Debug)]
pub struct TableId(pub u64);

/// Opaque identifier of a column within a table; compared only for equality.
#[derive(Clone, Copy, PartialEq, Eq, Structural, Debug)]
pub struct ColId(pub u64);

/// Opaque row-local index of a tuple slot, resolved against the current row
/// at evaluation time.
#[derive(Clone, Copy, PartialEq, Eq, Structural, Debug)]
pub struct TupleSetIdx(pub usize);

/// A runtime value: a tagged union of null, booleans, integers, strings,
/// ordered lists and key-ordered mappings.  The evaluator never invents value
/// semantics; it only inspects nullness and forwards values to the operator
/// catalog or to container builders.
///
/// A mapping is a vector of key/value pairs whose keys are unique and in
/// key order — the invariant [`val_wf`] states of its model.  A builder
/// establishes it, and every pass of this crate preserves it (see the
/// preservation lemmas beside the laws).
#[derive(Debug, PartialEq)]
pub enum Value {
    Null,
    Bool(bool),
    Int(i64),
    Str(String),
    List(Vec<Value>),
    Dict(Vec<(String, Value)>),
}

/// Mathematical model of a [`Value`].
pub enum ValS {
    Null,
    Bool(bool),
    Int(i64),
    Str(Seq<char>),
    List(Seq<ValS>),
    Dict(Seq<(Seq<char>, ValS)>),
}

/// Model of a sequence of values, element by element.
pub open spec fn vals_view(s: Seq<Value>) -> Seq<ValS>
    decreases s, s.len(),
{
    if s.len() == 0 {
        Seq::empty()
    } else {
        seq![val_view(s[0])] + vals_view(s.subrange(1, s.len() as int))
    }
}

/// Model of a sequence of mapping entries, element by element.
pub open spec fn ventries_view(s: Seq<(String, Value)>) -> Seq<(Seq<char>, ValS)>
    decreases s, s.len(),
{
    if s.len() == 0 {
        Seq::empty()
    } else {
        seq![(s[0].0@, val_view(s[0].1))] + ventries_view(s.subrange(1, s.len() as int))
    }
}

/// Model of a single value.
pub open spec fn val_view(v: Value) -> ValS
    decreases v, 0int,
{
    match v {
        Value::Null => ValS::Null,
        Value::Bool(b) => ValS::Bool(b),
        Value::Int(i) => ValS::Int(i),
        Value::Str(s) => ValS::Str(s@),
        Value::List(l) => ValS::List(vals_view(l@)),
        Value::Dict(d) => ValS::Dict(ventries_view(d@)),
    }
}

impl View for Value {
    type V = ValS;

    open spec fn view(&self) -> ValS {
        val_view(*self)
    }
}

/// The model of a sequence of values is as long as the sequence and is the
/// model of each element in place.
pub broadcast proof fn lemma_vals_view(s: Seq<Value>)
    ensures
        (#[trigger] vals_view(s)).len() == s.len(),
        forall|i: int| 0 <= i < s.len() ==> (#[trigger] vals_view(s)[i]) == val_view(s[i]),
    decreases s.len(),
{
    if s.len() > 0 {
        lemma_vals_view(s.subrange(1, s.len() as int));
    }
}

/// The model of a sequence of mapping entries is as long as the sequence and
/// models each key and value in place.
pub broadcast proof fn lemma_ventries_view(s: Seq<(String, Value)>)
    ensures
        (#[trigger] ventries_view(s)).len() == s.len(),
        forall|i: int| 0 <= i < s.len() ==> (#[trigger] ventries_view(s)[i]) == (s[i].0@, val_view(s[i].1)),
    decreases s.len(),
{
    if s.len() > 0 {
        lemma_ventries_view(s.subrange(1, s.len() as int));
    }
}

/// A value and its model are always the same variant.
pub broadcast proof fn lemma_val_view_variants(v: Value)
    ensures
        ((#[trigger] val_view(v)) is Null <==> v is Null),
        (val_view(v) is Bool <==> v is Bool),
        (val_view(v) is Int <==> v is Int),
        (val_view(v) is Str <==> v is Str),
        (val_view(v) is List <==> v is List),
        (val_view(v) is Dict <==> v is Dict),
{
    match v {
        Value::Null => {},
        Value::Bool(_) => {},
        Value::Int(_) => {},
        Value::Str(_) => {},
        Value::List(_) => {},
        Value::Dict(_) => {},
    }
}

/// Looks a key up in the entries of a mapping model: the value under the
/// first matching key, or null when the key is absent.  With unique keys the
/// first match is the only one.
pub open spec fn val_dict_get(entries: Seq<(Seq<char>, ValS)>, key: Seq<char>) -> ValS
    decreases entries.len(),
{
    if entries.len() == 0 {
        ValS::Null
    } else if entries[0].0 == key {
        entries[0].1
    } else {
        val_dict_get(entries.subrange(1, entries.len() as int), key)
    }
}

/// Well-formedness of the entries of a mapping: keys strictly increase in
/// lexicographic order, so they are unique and ordered by key.
pub open spec fn vkeys_sorted(entries: Seq<(Seq<char>, ValS)>) -> bool {
    forall|i: int, j: int|
        0 <= i < j < entries.len() ==> str_lt((#[trigger] entries[i]).0, (#[trigger] entries[j]).0)
}

/// Well-formedness of a value: every mapping anywhere inside it has unique
/// keys in key order.  This is the invariant a mapping builder establishes
/// and every pass of this crate preserves.
pub open spec fn val_wf(v: ValS) -> bool
    decreases v,
{
    match v {
        ValS::List(l) => forall|i: int| 0 <= i < l.len() ==> val_wf(#[trigger] l[i]),
        ValS::Dict(d) => vkeys_sorted(d) && (forall|i: int|
            0 <= i < d.len() ==> val_wf((#[trigger] d[i]).1)),
        _ => true,
    }
}

impl Value {
    /// Structure-preserving copy of a value.
    pub fn duplicate(&self) -> (r: Value)
        ensures
            r@ == self@,
        decreases self,
    {
        match self {
            Value::Null => Value::Null,
            Value::Bool(b) => Value::Bool(*b),
            Value::Int(i) => Value::Int(*i),
            Value::Str(s) => Value::Str(s.clone()),
            Value::List(l) => {
                let mut out: Vec<Value> = Vec::new();
                let mut i: usize = 0;
                while i < l.len()
                    invariant
                        *self == Value::List(*l),
                        i <= l.len(),
                        out@.len() == i as int,
                        forall|j: int| 0 <= j < i as int ==> out@[j]@ == l@[j]@,
                    decreases l@.len() - i,
                {
                    proof {
                        assert(decreases_to!(*self => (*self)->List_0));
                        assert((*self)->List_0 == *l);
                        assert(decreases_to!(*l => l@));
                        assert(decreases_to!(l@ => l@[i as int]));
                    }
                    out.push(l[i].duplicate());
                    i += 1;
                }
                proof {
                    broadcast use {lemma_vals_view};

                    assert(vals_view(out@) =~= vals_view(l@));
                }
                Value::List(out)
            },
            Value::Dict(d) => {
                let mut out: Vec<(String, Value)> = Vec::new();
                let mut i: usize = 0;
                while i < d.len()
                    invariant
                        *self == Value::Dict(*d),
                        i <= d.len(),
                        out@.len() == i as int,
                        forall|j: int| 0 <= j < i as int ==> out@[j].0@ == d@[j].0@
                            && out@[j].1@ == d@[j].1@,
                    decreases d@.len() - i,
                {
                    proof {
                        assert(decreases_to!(*self => (*self)->Dict_0));
                        assert((*self)->Dict_0 == *d);
                        assert(decreases_to!(*d => d@));
                        assert(decreases_to!(d@ => d@[i as int]));
                        assert(decreases_to!(d@[i as int] => d@[i as int].1));
                    }
                    out.push((d[i].0.clone(), d[i].1.duplicate()));
                    i += 1;
                }
                proof {
                    broadcast use {lemma_ventries_view};

                    assert(ventries_view(out@) =~= ventries_view(d@));
                }
                Value::Dict(out)
            },
        }
    }
}

/// Extracts the value under `key` from the entries of a mapping that is being
/// consumed, defaulting to null when the key is absent.
pub fn val_dict_remove(entries: Vec<(String, Value)>, key: &String) -> (r: Value)
    ensures
        r@ == val_dict_get(ventries_view(entries@), key@),
    decreases entries@.len(),
{
    let ghost orig = entries@;
    let mut es = entries;
    if es.len() == 0 {
        Value::Null
    } else {
        let (k, v) = es.remove(0);
        if k == *key {
            v
        } else {
            proof {
                assert(es@ =~= orig.subrange(1, orig.len() as int));
                assert(ventries_view(es@) =~= ventries_view(orig).subrange(
                    1,
                    ventries_view(orig).len() as int,
                ));
            }
            val_dict_remove(es, key)
        }
    }
}

} // verus!
