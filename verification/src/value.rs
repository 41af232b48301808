//! The data model: a generic dynamically-typed tree value, its mathematical
//! model, and the classification label printed next to each key.

use vstd::prelude::*;

verus! {

/// A generic structured node: the tree being documented.
///
/// A `Mapping` holds its entries in iteration order; keys are expected to be
/// unique, though the renderer does not require it (lookups find the first
/// matching key). A `Tagged` value carries a custom type tag (stored without
/// its leading `!`) and is treated as an opaque leaf by the renderer.
/// Numbers are modelled as signed 64-bit integers.
pub enum Value {
    Null,
    Bool(bool),
    Number(i64),
    String(String),
    List(Vec<Value>),
    Mapping(Vec<(Value, Value)>),
    Tagged(String, Box<Value>),
}

/// The mathematical model of a `Value`: text as `Seq<char>`, numbers as `int`,
/// collections as `Seq`.
pub enum Val {
    Null,
    Bool(bool),
    Number(int),
    Str(Seq<char>),
    List(Seq<Val>),
    Mapping(Seq<(Val, Val)>),
    Tagged(Seq<char>, Box<Val>),
}

/// The model of a `Value`, taken recursively.
pub open spec fn value_view(v: Value) -> Val
    decreases v,
{
    match v {
        Value::Null => Val::Null,
        Value::Bool(b) => Val::Bool(b),
        Value::Number(n) => Val::Number(n as int),
        Value::String(s) => Val::Str(s@),
        Value::List(vs) => Val::List(list_view(vs@)),
        Value::Mapping(ps) => Val::Mapping(pairs_view(ps@)),
        Value::Tagged(t, b) => Val::Tagged(t@, Box::new(value_view(*b))),
    }
}

pub open spec fn list_view(s: Seq<Value>) -> Seq<Val>
    decreases s,
{
    if s.len() == 0 {
        Seq::empty()
    } else {
        list_view(s.drop_last()).push(value_view(s.last()))
    }
}

pub open spec fn pairs_view(s: Seq<(Value, Value)>) -> Seq<(Val, Val)>
    decreases s,
{
    if s.len() == 0 {
        Seq::empty()
    } else {
        pairs_view(s.drop_last()).push(
            (value_view(s.last().0), value_view(s.last().1)),
        )
    }
}

impl View for Value {
    type V = Val;

    open spec fn view(&self) -> Val {
        value_view(*self)
    }
}

pub broadcast proof fn list_view_index(s: Seq<Value>, i: int)
    requires
        0 <= i < s.len(),
    ensures
        list_view(s).len() == s.len(),
        #[trigger] list_view(s)[i] == value_view(s[i]),
    decreases s,
{
    if s.len() > 0 {
        if i < s.len() - 1 {
            list_view_index(s.drop_last(), i);
            assert(s.drop_last()[i] == s[i]);
        } else {
            list_view_len(s);
        }
    }
}

pub broadcast proof fn list_view_len(s: Seq<Value>)
    ensures
        #[trigger] list_view(s).len() == s.len(),
    decreases s,
{
    if s.len() > 0 {
        list_view_len(s.drop_last());
    }
}

pub broadcast proof fn pairs_view_index(s: Seq<(Value, Value)>, i: int)
    requires
        0 <= i < s.len(),
    ensures
        pairs_view(s).len() == s.len(),
        #[trigger] pairs_view(s)[i] == (value_view(s[i].0), value_view(s[i].1)),
    decreases s,
{
    if s.len() > 0 {
        if i < s.len() - 1 {
            pairs_view_index(s.drop_last(), i);
            assert(s.drop_last()[i] == s[i]);
        } else {
            pairs_view_len(s);
        }
    }
}

pub broadcast proof fn pairs_view_len(s: Seq<(Value, Value)>)
    ensures
        #[trigger] pairs_view(s).len() == s.len(),
    decreases s,
{
    if s.len() > 0 {
        pairs_view_len(s.drop_last());
    }
}

/// Whether two values are equal trees.
#[verifier::loop_isolation(false)]
pub fn value_eq(a: &Value, b: &Value) -> (r: bool)
    ensures
        r <==> (a@ == b@),
    decreases *a,
{
    match (a, b) {
        (Value::Null, Value::Null) => true,
        (Value::Bool(x), Value::Bool(y)) => *x == *y,
        (Value::Number(x), Value::Number(y)) => *x == *y,
        (Value::String(x), Value::String(y)) => *x == *y,
        (Value::List(xs), Value::List(ys)) => {
            proof {
                list_view_len(xs@);
                list_view_len(ys@);
            }
            if xs.len() != ys.len() {
                return false;
            }
            let n: usize = xs.len();
            let mut i: usize = 0;
            while i < n
                invariant
                    n == xs@.len(),
                    n == ys@.len(),
                    i <= n,
                    a@ == Val::List(list_view(xs@)),
                    b@ == Val::List(list_view(ys@)),
                    forall|j: int| 0 <= j < i ==> value_view(xs@[j]) == value_view(ys@[j]),
                decreases n - i,
            {
                proof {
                    list_view_index(xs@, i as int);
                    list_view_index(ys@, i as int);
                    assert(*a == Value::List(*xs));
                    assert(decreases_to!(*a => a->List_0));
                    assert(a->List_0 == *xs);
                    assert(decreases_to!(*xs => xs@));
                    assert(decreases_to!(xs@ => xs@[i as int]));
                }
                if !value_eq(&xs[i], &ys[i]) {
                    return false;
                }
                i += 1;
            }
            proof {
                assert forall|j: int| 0 <= j < n implies list_view(xs@)[j] == list_view(ys@)[j] by {
                    list_view_index(xs@, j);
                    list_view_index(ys@, j);
                }
                assert(list_view(xs@) =~= list_view(ys@));
            }
            true
        },
        (Value::Mapping(xs), Value::Mapping(ys)) => {
            proof {
                pairs_view_len(xs@);
                pairs_view_len(ys@);
            }
            if xs.len() != ys.len() {
                return false;
            }
            let n: usize = xs.len();
            let mut i: usize = 0;
            while i < n
                invariant
                    n == xs@.len(),
                    n == ys@.len(),
                    i <= n,
                    a@ == Val::Mapping(pairs_view(xs@)),
                    b@ == Val::Mapping(pairs_view(ys@)),
                    forall|j: int| 0 <= j < i ==> pairs_view(xs@)[j] == pairs_view(ys@)[j],
                decreases n - i,
            {
                proof {
                    pairs_view_index(xs@, i as int);
                    pairs_view_index(ys@, i as int);
                    assert(*a == Value::Mapping(*xs));
                    assert(decreases_to!(*a => a->Mapping_0));
                    assert(a->Mapping_0 == *xs);
                    assert(decreases_to!(*xs => xs@));
                    assert(decreases_to!(xs@ => xs@[i as int]));
                    assert(decreases_to!(xs@[i as int] => xs@[i as int].0));
                    assert(decreases_to!(xs@[i as int] => xs@[i as int].1));
                }
                if !value_eq(&xs[i].0, &ys[i].0) {
                    return false;
                }
                if !value_eq(&xs[i].1, &ys[i].1) {
                    return false;
                }
                i += 1;
            }
            proof {
                assert(pairs_view(xs@) =~= pairs_view(ys@));
            }
            true
        },
        (Value::Tagged(t1, b1), Value::Tagged(t2, b2)) => if *t1 == *t2 {
            value_eq(b1, b2)
        } else {
            false
        },
        _ => {
            proof {
                assert(a@ != b@);
            }
            false
        },
    }
}

/// The classification label assigned to a node purely from its variant tag,
/// printed verbatim next to each key.
#[derive(Debug, PartialEq)]
pub enum ValueType {
    Null,
    Bool,
    Number,
    String,
    List,
    Mapping,
    Tagged,
}

/// The label that classifies a model value's variant.
pub open spec fn spec_value_type(v: Val) -> ValueType {
    match v {
        Val::Null => ValueType::Null,
        Val::Bool(_) => ValueType::Bool,
        Val::Number(_) => ValueType::Number,
        Val::Str(_) => ValueType::String,
        Val::List(_) => ValueType::List,
        Val::Mapping(_) => ValueType::Mapping,
        Val::Tagged(_, _) => ValueType::Tagged,
    }
}

/// Classify a value's variant.
pub fn value_type(v: &Value) -> (t: ValueType)
    ensures
        t == spec_value_type(v@),
{
    match v {
        Value::Null => ValueType::Null,
        Value::Bool(_) => ValueType::Bool,
        Value::Number(_) => ValueType::Number,
        Value::String(_) => ValueType::String,
        Value::List(_) => ValueType::List,
        Value::Mapping(_) => ValueType::Mapping,
        Value::Tagged(_, _) => ValueType::Tagged,
    }
}

} // verus!
