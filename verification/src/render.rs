//! The renderer: walks a data tree in lock-step with an optional description
//! tree and emits an indented, annotated listing.
//!
//! The output is pinned, line for line, by the spec functions of this module:
//! `spec_render` is the full document text, `spec_render_ok` says when
//! rendering succeeds.

use vstd::prelude::*;

use crate::number::{dec_int, number_text};
use crate::value::{
    list_view, list_view_index, list_view_len, pairs_view, pairs_view_index, pairs_view_len,
    spec_value_type, value_eq, value_type, Val, Value, ValueType,
};
use crate::yaml::{yaml_str_doc, yaml_string};

verus! {

/// The reserved key that carries the comment for the enclosing mapping.
pub open spec fn description_key() -> Seq<char> {
    "__description__"@
}

/// The reserved key, as a model value.
pub open spec fn description_key_val() -> Val {
    Val::Str(description_key())
}

/// The indentation prefix of a nesting level: four spaces per level.
pub open spec fn indent_seq(n: nat) -> Seq<char>
    decreases n,
{
    if n == 0 {
        Seq::empty()
    } else {
        indent_seq((n - 1) as nat) + "    "@
    }
}

/// The text of a classification label, as printed next to a key.
pub open spec fn label_text(t: ValueType) -> Seq<char> {
    match t {
        ValueType::Null => "Null"@,
        ValueType::Bool => "Bool"@,
        ValueType::Number => "Number"@,
        ValueType::String => "String"@,
        ValueType::List => "List"@,
        ValueType::Mapping => "Mapping"@,
        ValueType::Tagged => "Tagged"@,
    }
}

/// The canonical single-line (flow) text of a value: used for mapping keys
/// that are not plain strings, and for the payload of a tagged leaf.
pub open spec fn flow_text(v: Val) -> Seq<char>
    decreases v, 0nat,
{
    match v {
        Val::Null => "null"@,
        Val::Bool(b) => if b {
            "true"@
        } else {
            "false"@
        },
        Val::Number(n) => dec_int(n),
        Val::Str(s) => s,
        Val::List(es) => "["@ + flow_items(es, 0) + "]"@,
        Val::Mapping(ps) => "{"@ + flow_pairs(ps, 0) + "}"@,
        Val::Tagged(t, b) => "!"@ + t + " "@ + flow_text(*b),
    }
}

pub open spec fn flow_items(es: Seq<Val>, i: int) -> Seq<char>
    decreases es, es.len() - i,
{
    if i < 0 || i >= es.len() {
        Seq::empty()
    } else if i == es.len() - 1 {
        flow_text(es[i])
    } else {
        flow_text(es[i]) + ", "@ + flow_items(es, i + 1)
    }
}

pub open spec fn flow_pairs(ps: Seq<(Val, Val)>, i: int) -> Seq<char>
    decreases ps, ps.len() - i,
{
    if i < 0 || i >= ps.len() {
        Seq::empty()
    } else if i == ps.len() - 1 {
        flow_text(ps[i].0) + ": "@ + flow_text(ps[i].1)
    } else {
        flow_text(ps[i].0) + ": "@ + flow_text(ps[i].1) + ", "@ + flow_pairs(ps, i + 1)
    }
}

/// A mapping key as printed: a plain string key verbatim, any other key in
/// its canonical single-line form.
pub open spec fn key_text(k: Val) -> Seq<char> {
    match k {
        Val::Str(s) => s,
        _ => flow_text(k),
    }
}

/// The first entry of `ps` whose key equals `k`, if any.
pub open spec fn lookup(ps: Seq<(Val, Val)>, k: Val) -> Option<Val>
    decreases ps.len(),
{
    if ps.len() == 0 {
        None
    } else if ps[0].0 == k {
        Some(ps[0].1)
    } else {
        lookup(ps.drop_first(), k)
    }
}

/// The entries of a description mapping other than the reserved key: what a
/// located description mapping passes on to the value's own children.
pub open spec fn remainder(ps: Seq<(Val, Val)>) -> Seq<(Val, Val)>
    decreases ps.len(),
{
    if ps.len() == 0 {
        Seq::empty()
    } else if ps[0].0 == description_key_val() {
        remainder(ps.drop_first())
    } else {
        seq![ps[0]] + remainder(ps.drop_first())
    }
}

/// The description node located for key `k`: a lookup in the description,
/// when the description is itself a mapping.
pub open spec fn desc_node(d: Option<Val>, k: Val) -> Option<Val> {
    match d {
        Some(Val::Mapping(dps)) => lookup(dps, k),
        _ => None,
    }
}

/// The comment a located description node yields: a string directly, or the
/// reserved field of a mapping.
pub open spec fn comment_of_node(n: Option<Val>) -> Option<Seq<char>> {
    match n {
        Some(Val::Str(s)) => Some(s),
        Some(Val::Mapping(m)) => match lookup(m, description_key_val()) {
            Some(Val::Str(s)) => Some(s),
            _ => None,
        },
        _ => None,
    }
}

/// The comment text for key `k`, if one applies.
pub open spec fn comment_of(k: Val, d: Option<Val>) -> Option<Seq<char>> {
    comment_of_node(desc_node(d, k))
}

/// The comment line emitted for key `k`, or nothing.
pub open spec fn comment_text(k: Val, d: Option<Val>, level: nat) -> Seq<char> {
    match comment_of(k, d) {
        Some(s) => indent_seq(level) + "# "@ + s + "\n"@,
        None => Seq::empty(),
    }
}

/// The description passed down for the value under key `k`: the located
/// mapping less its reserved field, or nothing.
pub open spec fn child_desc(k: Val, d: Option<Val>) -> Option<Val> {
    match desc_node(d, k) {
        Some(Val::Mapping(m)) => Some(Val::Mapping(remainder(m))),
        _ => None,
    }
}

/// The serialized text of a leaf, trailing line break included.
pub open spec fn leaf_text(v: Val) -> Seq<char> {
    match v {
        Val::Null => "null\n"@,
        Val::Bool(b) => if b {
            "true\n"@
        } else {
            "false\n"@
        },
        Val::Number(n) => dec_int(n) + "\n"@,
        Val::Str(s) => match yaml_str_doc(s) {
            Some(t) => t,
            None => Seq::empty(),
        },
        Val::Tagged(t, b) => "!"@ + t + " "@ + flow_text(*b) + "\n"@,
        _ => Seq::empty(),
    }
}

/// The full rendered text of `v` under description `d` at nesting level
/// `level`, provided every leaf serializes (see `spec_render_ok`).
pub open spec fn spec_render(v: Val, d: Option<Val>, level: nat) -> Seq<char>
    decreases v, 0nat,
{
    match v {
        Val::Mapping(ps) => (if level > 0 {
            "\n"@
        } else {
            Seq::empty()
        }) + render_entries(ps, d, level, 0),
        Val::List(es) => "\n"@ + render_items(es, level, 0),
        _ => leaf_text(v),
    }
}

pub open spec fn render_entries(ps: Seq<(Val, Val)>, d: Option<Val>, level: nat, i: int) -> Seq<
    char,
>
    decreases ps, ps.len() - i,
{
    if i < 0 || i >= ps.len() {
        Seq::empty()
    } else {
        render_entry(ps[i].0, ps[i].1, d, level) + render_entries(ps, d, level, i + 1)
    }
}

/// A key line: the indentation, the key, and its parenthesized label.
pub open spec fn key_line_text(k: Val, t: ValueType, level: nat) -> Seq<char> {
    indent_seq(level) + key_text(k) + " ("@ + label_text(t) + "): "@
}

/// One mapping entry: its optional comment line, then its key line, then the
/// rendering of its value one level deeper.
pub open spec fn render_entry(k: Val, v: Val, d: Option<Val>, level: nat) -> Seq<char>
    decreases v, 1nat,
{
    comment_text(k, d, level) + key_line_text(k, spec_value_type(v), level) + spec_render(
        v,
        child_desc(k, d),
        level + 1,
    )
}

pub open spec fn render_items(es: Seq<Val>, level: nat, i: int) -> Seq<char>
    decreases es, es.len() - i,
{
    if i < 0 || i >= es.len() {
        Seq::empty()
    } else {
        indent_seq(level) + "- "@ + spec_render(es[i], None, level + 1) + render_items(
            es,
            level,
            i + 1,
        )
    }
}

/// Whether every leaf of `v` that goes through the YAML serializer succeeds:
/// exactly then does rendering return a text.
pub open spec fn spec_render_ok(v: Val) -> bool
    decreases v, 0nat,
{
    match v {
        Val::Str(s) => yaml_str_doc(s) is Some,
        Val::Mapping(ps) => entries_ok(ps, 0),
        Val::List(es) => items_ok(es, 0),
        _ => true,
    }
}

pub open spec fn entries_ok(ps: Seq<(Val, Val)>, i: int) -> bool
    decreases ps, ps.len() - i,
{
    if i < 0 || i >= ps.len() {
        true
    } else {
        spec_render_ok(ps[i].1) && entries_ok(ps, i + 1)
    }
}

pub open spec fn items_ok(es: Seq<Val>, i: int) -> bool
    decreases es, es.len() - i,
{
    if i < 0 || i >= es.len() {
        true
    } else {
        spec_render_ok(es[i]) && items_ok(es, i + 1)
    }
}

/// The nesting depth of `v`: how many levels of mapping or list entries lie
/// below it. An empty mapping or list recurses into nothing and adds none.
pub open spec fn depth(v: Val) -> nat
    decreases v, 0nat,
{
    match v {
        Val::Mapping(ps) => if ps.len() == 0 {
            0
        } else {
            1 + depth_entries(ps, 0)
        },
        Val::List(es) => if es.len() == 0 {
            0
        } else {
            1 + depth_items(es, 0)
        },
        _ => 0,
    }
}

pub open spec fn depth_entries(ps: Seq<(Val, Val)>, i: int) -> nat
    decreases ps, ps.len() - i,
{
    if i < 0 || i >= ps.len() {
        0
    } else {
        let d = depth(ps[i].1);
        let r = depth_entries(ps, i + 1);
        if d >= r {
            d
        } else {
            r
        }
    }
}

pub open spec fn depth_items(es: Seq<Val>, i: int) -> nat
    decreases es, es.len() - i,
{
    if i < 0 || i >= es.len() {
        0
    } else {
        let d = depth(es[i]);
        let r = depth_items(es, i + 1);
        if d >= r {
            d
        } else {
            r
        }
    }
}

/// The structured failure of a render: a leaf that the YAML serializer
/// refused, with the serializer's message.
#[derive(Debug, PartialEq)]
pub enum RenderError {
    Serialization(String),
}

/// The reserved key as a value, for lookups.
fn description_key_value() -> (v: Value)
    ensures
        v@ == description_key_val(),
{
    Value::String("__description__".to_owned())
}

/// Find the first entry of `ps` whose key equals `k`.
#[verifier::loop_isolation(false)]
fn lookup_desc<'a>(ps: &'a Vec<(Value, Value)>, k: &Value) -> (r: Option<&'a Value>)
    ensures
        (match r {
            Some(x) => lookup(pairs_view(ps@), k@) == Some(x@),
            None => lookup(pairs_view(ps@), k@) is None,
        }),
{
    proof {
        pairs_view_len(ps@);
    }
    let n: usize = ps.len();
    let mut i: usize = 0;
    while i < n
        invariant
            i <= n,
            forall|j: int| 0 <= j < i ==> (#[trigger] pairs_view(ps@)[j]).0 != k@,
        decreases n - i,
    {
        proof {
            pairs_view_index(ps@, i as int);
        }
        if value_eq(&ps[i].0, k) {
            proof {
                lemma_lookup_found(pairs_view(ps@), k@, i as int);
            }
            return Some(&ps[i].1);
        }
        i += 1;
    }
    proof {
        lemma_lookup_none(pairs_view(ps@), k@);
    }
    None
}

/// Find the entry of a derived description mapping for key `k`: the reserved
/// key itself never names a child description.
fn lookup_derived<'a>(ps: &'a Vec<(Value, Value)>, k: &Value) -> (r: Option<&'a Value>)
    ensures
        (match r {
            Some(x) => lookup(remainder(pairs_view(ps@)), k@) == Some(x@),
            None => lookup(remainder(pairs_view(ps@)), k@) is None,
        }),
{
    proof {
        lemma_lookup_remainder(pairs_view(ps@), k@);
    }
    let dkv = description_key_value();
    if value_eq(k, &dkv) {
        None
    } else {
        lookup_desc(ps, k)
    }
}

/// The printed form of a classification label.
fn label_str(t: &ValueType) -> (r: &'static str)
    ensures
        r@ == label_text(*t),
{
    match t {
        ValueType::Null => "Null",
        ValueType::Bool => "Bool",
        ValueType::Number => "Number",
        ValueType::String => "String",
        ValueType::List => "List",
        ValueType::Mapping => "Mapping",
        ValueType::Tagged => "Tagged",
    }
}

/// The canonical single-line form of a value.
#[verifier::loop_isolation(false)]
fn flow_string(v: &Value) -> (s: String)
    ensures
        s@ == flow_text(v@),
    decreases *v, 0nat,
{
    match v {
        Value::Null => "null".to_owned(),
        Value::Bool(b) => if *b {
            "true".to_owned()
        } else {
            "false".to_owned()
        },
        Value::Number(n) => number_text(*n),
        Value::String(st) => st.clone(),
        Value::List(vs) => {
            let mut s = "[".to_owned();
            let items = flow_items_string(vs, 0);
            s.append(items.as_str());
            s.append("]");
            proof {
                assert(s@ =~= flow_text(v@));
            }
            s
        },
        Value::Mapping(ps) => {
            let mut s = "{".to_owned();
            let items = flow_pairs_string(ps, 0);
            s.append(items.as_str());
            s.append("}");
            proof {
                assert(s@ =~= flow_text(v@));
            }
            s
        },
        Value::Tagged(t, b) => {
            let mut s = "!".to_owned();
            s.append(t.as_str());
            s.append(" ");
            let inner = flow_string(b);
            s.append(inner.as_str());
            proof {
                assert(s@ =~= flow_text(v@));
            }
            s
        },
    }
}

fn flow_items_string(vs: &Vec<Value>, i: usize) -> (s: String)
    requires
        i <= vs@.len(),
    ensures
        s@ == flow_items(list_view(vs@), i as int),
    decreases vs@, vs@.len() - i,
{
    proof {
        list_view_len(vs@);
    }
    if i >= vs.len() {
        String::new()
    } else {
        proof {
            list_view_index(vs@, i as int);
        }
        let mut s = flow_string(&vs[i]);
        if i < vs.len() - 1 {
            s.append(", ");
            let rest = flow_items_string(vs, i + 1);
            s.append(rest.as_str());
            proof {
                assert(s@ =~= flow_items(list_view(vs@), i as int));
            }
        }
        s
    }
}

fn flow_pairs_string(ps: &Vec<(Value, Value)>, i: usize) -> (s: String)
    requires
        i <= ps@.len(),
    ensures
        s@ == flow_pairs(pairs_view(ps@), i as int),
    decreases ps@, ps@.len() - i,
{
    proof {
        pairs_view_len(ps@);
    }
    if i >= ps.len() {
        String::new()
    } else {
        proof {
            pairs_view_index(ps@, i as int);
            assert(decreases_to!(ps@ => ps@[i as int]));
            assert(decreases_to!(ps@[i as int] => ps@[i as int].0));
            assert(decreases_to!(ps@[i as int] => ps@[i as int].1));
        }
        let mut s = flow_string(&ps[i].0);
        s.append(": ");
        let val_part = flow_string(&ps[i].1);
        s.append(val_part.as_str());
        if i < ps.len() - 1 {
            s.append(", ");
            let rest = flow_pairs_string(ps, i + 1);
            s.append(rest.as_str());
        }
        proof {
            assert(s@ =~= flow_pairs(pairs_view(ps@), i as int));
        }
        s
    }
}

/// A mapping key as printed.
fn key_string(k: &Value) -> (s: String)
    ensures
        s@ == key_text(k@),
{
    match k {
        Value::String(st) => st.clone(),
        _ => flow_string(k),
    }
}

/// Append `n` indentation units (four spaces each) to `content`.
#[verifier::loop_isolation(false)]
pub fn indent(content: &mut String, n: u8)
    ensures
        final(content)@ == old(content)@ + indent_seq(n as nat),
{
    let mut i: u8 = 0;
    proof {
        assert(content@ =~= old(content)@ + indent_seq(0nat));
    }
    while i < n
        invariant
            i <= n,
            content@ == old(content)@ + indent_seq(i as nat),
        decreases n - i,
    {
        content.append("    ");
        i += 1;
        proof {
            assert(content@ =~= old(content)@ + indent_seq(i as nat));
        }
    }
}

/// Emit the comment line that a located description node yields, if any.
fn emit_comment(content: &mut String, located: Option<&Value>, level: u8)
    ensures
        final(content)@ == old(content)@ + (match comment_of_node(desc_view(located)) {
            Some(s) => indent_seq(level as nat) + "# "@ + s + "\n"@,
            None => Seq::<char>::empty(),
        }),
{
    match located {
        Some(Value::String(s)) => {
            indent(content, level);
            content.append("# ");
            content.append(s.as_str());
            content.append("\n");
            proof {
                assert(content@ =~= old(content)@ + (indent_seq(level as nat) + "# "@ + s@
                    + "\n"@));
            }
        },
        Some(Value::Mapping(m)) => {
            let dkv = description_key_value();
            match lookup_desc(m, &dkv) {
                Some(Value::String(s)) => {
                    indent(content, level);
                    content.append("# ");
                    content.append(s.as_str());
                    content.append("\n");
                    proof {
                        assert(content@ =~= old(content)@ + (indent_seq(level as nat) + "# "@ + s@
                            + "\n"@));
                    }
                },
                _ => {
                    proof {
                        assert(content@ =~= old(content)@ + Seq::<char>::empty());
                    }
                },
            }
        },
        _ => {
            proof {
                assert(content@ =~= old(content)@ + Seq::<char>::empty());
            }
        },
    }
}

/// Emit a key line: the indentation, the key, and its parenthesized label.
fn emit_key_line(content: &mut String, key: &Value, ty: &ValueType, level: u8)
    ensures
        final(content)@ == old(content)@ + key_line_text(key@, *ty, level as nat),
{
    indent(content, level);
    let ks = key_string(key);
    content.append(ks.as_str());
    content.append(" (");
    content.append(label_str(ty));
    content.append("): ");
    proof {
        assert(content@ =~= old(content)@ + key_line_text(key@, *ty, level as nat));
    }
}

proof fn lemma_seq_assoc(a: Seq<char>, b: Seq<char>, c: Seq<char>)
    ensures
        (a + b) + c == a + (b + c),
{
    assert((a + b) + c =~= a + (b + c));
}

proof fn lemma_seq_add_empty(a: Seq<char>)
    ensures
        a + Seq::<char>::empty() == a,
        Seq::<char>::empty() + a == a,
{
    assert(a + Seq::<char>::empty() =~= a);
    assert(Seq::<char>::empty() + a =~= a);
}

/// The description context handed down the recursion: nothing, the caller's
/// whole description tree, or a located description mapping (whose reserved
/// field no longer applies below it).
#[derive(Clone, Copy)]
enum DescArg<'a> {
    NoDesc,
    Top(&'a Value),
    Derived(&'a Vec<(Value, Value)>),
}

spec fn desc_arg_view(d: DescArg) -> Option<Val> {
    match d {
        DescArg::NoDesc => None,
        DescArg::Top(v) => Some(v@),
        DescArg::Derived(m) => Some(Val::Mapping(remainder(pairs_view(m@)))),
    }
}

/// Render the entries of a mapping into `content`: the leading line break of
/// a nested mapping, then each entry in iteration order.
#[verifier::loop_isolation(false)]
#[verifier::rlimit(100)]
fn render_mapping(
    content: &mut String,
    ps: &Vec<(Value, Value)>,
    desc: DescArg,
    level: u8,
) -> (r: Result<(), RenderError>)
    requires
        level as nat + depth(Val::Mapping(pairs_view(ps@))) <= 255,
    ensures
        r is Ok <==> entries_ok(pairs_view(ps@), 0),
        r is Ok ==> final(content)@ == old(content)@ + (if level > 0 {
            "\n"@
        } else {
            Seq::<char>::empty()
        }) + render_entries(pairs_view(ps@), desc_arg_view(desc), level as nat, 0),
    decreases ps@, 0nat,
{
    proof {
        pairs_view_len(ps@);
    }
    let ghost pv = pairs_view(ps@);
    let ghost d0 = desc_arg_view(desc);
    let ghost lvl = level as nat;
    if level > 0 {
        content.append("\n");
    }
    let ghost pre = content@;
    let n: usize = ps.len();
    let mut i: usize = 0;
    while i < n
        invariant
            i <= n,
            content@ + render_entries(pv, d0, lvl, i as int) == pre + render_entries(
                pv,
                d0,
                lvl,
                0,
            ),
            forall|j: int| 0 <= j < i ==> spec_render_ok((#[trigger] pv[j]).1),
        decreases n - i,
    {
        proof {
            pairs_view_index(ps@, i as int);
        }
        let ghost before = content@;
        let ghost kv = pv[i as int].0;
        let ghost vv = pv[i as int].1;
        let key = &ps[i].0;
        let value = &ps[i].1;
        let ty = value_type(value);
        let located: Option<&Value> = match desc {
            DescArg::NoDesc => None,
            DescArg::Top(dv) => match dv {
                Value::Mapping(dps) => lookup_desc(dps, key),
                _ => None,
            },
            DescArg::Derived(m) => lookup_derived(m, key),
        };
        proof {
            assert(match located {
                Some(x) => desc_node(d0, kv) == Some(x@),
                None => desc_node(d0, kv) is None,
            });
        }
        emit_comment(content, located, level);
        proof {
            assert(content@ == before + comment_text(kv, d0, lvl));
        }
        emit_key_line(content, key, &ty, level);
        let child: DescArg = match located {
            Some(Value::Mapping(dm)) => DescArg::Derived(dm),
            _ => DescArg::NoDesc,
        };
        proof {
            assert(desc_arg_view(child) == child_desc(kv, d0));
            lemma_depth_entries_ge(pv, 0, i as int);
            assert(decreases_to!(ps@ => ps@[i as int]));
            assert(decreases_to!(ps@[i as int] => ps@[i as int].1));
        }
        match document_val(content, value, child, level + 1) {
            Ok(()) => {},
            Err(e) => {
                proof {
                    if entries_ok(pv, 0) {
                        lemma_entries_ok_at(pv, 0, i as int);
                    }
                }
                return Err(e);
            },
        }
        proof {
            let ct = comment_text(kv, d0, lvl);
            let kl = key_line_text(kv, spec_value_type(vv), lvl);
            let sr = spec_render(vv, child_desc(kv, d0), lvl + 1);
            lemma_seq_assoc(before, ct, kl);
            lemma_seq_assoc(before, ct + kl, sr);
            assert(content@ == before + render_entry(kv, vv, d0, lvl));
            lemma_seq_assoc(before, render_entry(kv, vv, d0, lvl), render_entries(
                pv,
                d0,
                lvl,
                i as int + 1,
            ));
            assert(content@ + render_entries(pv, d0, lvl, i as int + 1) == pre + render_entries(
                pv,
                d0,
                lvl,
                0,
            ));
        }
        i += 1;
    }
    proof {
        lemma_entries_ok_all(pv, 0);
        lemma_seq_add_empty(content@);
    }
    Ok(())
}

/// Render the items of a list into `content`: a leading line break, then each
/// item behind `- `, with no description context.
#[verifier::loop_isolation(false)]
#[verifier::rlimit(100)]
fn render_list(content: &mut String, vs: &Vec<Value>, level: u8) -> (r: Result<(), RenderError>)
    requires
        level as nat + depth(Val::List(list_view(vs@))) <= 255,
    ensures
        r is Ok <==> items_ok(list_view(vs@), 0),
        r is Ok ==> final(content)@ == old(content)@ + "\n"@ + render_items(
            list_view(vs@),
            level as nat,
            0,
        ),
    decreases vs@, 0nat,
{
    proof {
        list_view_len(vs@);
    }
    let ghost lv = list_view(vs@);
    let ghost lvl = level as nat;
    content.append("\n");
    let ghost pre = content@;
    let n: usize = vs.len();
    let mut i: usize = 0;
    while i < n
        invariant
            i <= n,
            content@ + render_items(lv, lvl, i as int) == pre + render_items(lv, lvl, 0),
            forall|j: int| 0 <= j < i ==> spec_render_ok(#[trigger] lv[j]),
        decreases n - i,
    {
        proof {
            list_view_index(vs@, i as int);
        }
        let ghost before = content@;
        indent(content, level);
        content.append("- ");
        proof {
            lemma_depth_items_ge(lv, 0, i as int);
            assert(decreases_to!(vs@ => vs@[i as int]));
        }
        match document_val(content, &vs[i], DescArg::NoDesc, level + 1) {
            Ok(()) => {},
            Err(e) => {
                proof {
                    if items_ok(lv, 0) {
                        lemma_items_ok_at(lv, 0, i as int);
                    }
                }
                return Err(e);
            },
        }
        proof {
            let dd = "- "@;
            let sr = spec_render(lv[i as int], None, lvl + 1);
            lemma_seq_assoc(before, indent_seq(lvl), dd);
            lemma_seq_assoc(before, indent_seq(lvl) + dd, sr);
            let e = indent_seq(lvl) + dd + sr;
            assert(content@ == before + e);
            lemma_seq_assoc(before, e, render_items(lv, lvl, i as int + 1));
            assert(content@ + render_items(lv, lvl, i as int + 1) == pre + render_items(
                lv,
                lvl,
                0,
            ));
        }
        i += 1;
    }
    proof {
        lemma_items_ok_all(lv, 0);
        lemma_seq_add_empty(content@);
    }
    Ok(())
}

/// Render `val` into `content` at nesting level `level`, under the given
/// description context.
#[verifier::rlimit(100)]
fn document_val(content: &mut String, val: &Value, desc: DescArg, level: u8) -> (r: Result<
    (),
    RenderError,
>)
    requires
        level as nat + depth(val@) <= 255,
    ensures
        r is Ok <==> spec_render_ok(val@),
        r is Ok ==> final(content)@ == old(content)@ + spec_render(
            val@,
            desc_arg_view(desc),
            level as nat,
        ),
    decreases *val, 1nat,
{
    let ghost d0 = desc_arg_view(desc);
    let ghost lvl = level as nat;
    let ghost start = content@;
    match val {
        Value::Mapping(ps) => {
            proof {
                assert(decreases_to!(*val => val->Mapping_0));
                assert(val->Mapping_0 == *ps);
                assert(decreases_to!(*ps => ps@));
            }
            let r = render_mapping(content, ps, desc, level);
            proof {
                if r is Ok {
                    let nlpart = if lvl > 0 {
                        "\n"@
                    } else {
                        Seq::<char>::empty()
                    };
                    lemma_seq_assoc(start, nlpart, render_entries(
                        pairs_view(ps@),
                        d0,
                        lvl,
                        0,
                    ));
                    assert(content@ == start + spec_render(val@, d0, lvl));
                }
            }
            r
        },
        Value::List(vs) => {
            proof {
                assert(decreases_to!(*val => val->List_0));
                assert(val->List_0 == *vs);
                assert(decreases_to!(*vs => vs@));
            }
            let r = render_list(content, vs, level);
            proof {
                if r is Ok {
                    lemma_seq_assoc(start, "\n"@, render_items(list_view(vs@), lvl, 0));
                    assert(content@ == start + spec_render(val@, d0, lvl));
                }
            }
            r
        },
        Value::Null => {
            content.append("null\n");
            Ok(())
        },
        Value::Bool(b) => {
            if *b {
                content.append("true\n");
            } else {
                content.append("false\n");
            }
            Ok(())
        },
        Value::Number(n) => {
            let t = number_text(*n);
            content.append(t.as_str());
            content.append("\n");
            proof {
                assert(content@ =~= start + leaf_text(val@));
            }
            Ok(())
        },
        Value::String(st) => {
            match yaml_string(st.as_str()) {
                Ok(t) => {
                    content.append(t.as_str());
                    Ok(())
                },
                Err(m) => Err(RenderError::Serialization(m)),
            }
        },
        Value::Tagged(t, b) => {
            content.append("!");
            content.append(t.as_str());
            content.append(" ");
            let inner = flow_string(b);
            content.append(inner.as_str());
            content.append("\n");
            proof {
                assert(content@ =~= start + leaf_text(val@));
            }
            Ok(())
        },
    }
}

/// The model of the optional description argument.
pub open spec fn desc_view(d: Option<&Value>) -> Option<Val> {
    match d {
        Some(x) => Some(x@),
        None => None,
    }
}

/// Render a structured value as an annotated, indented listing, overlaying
/// the optional description tree: per mapping entry an optional `# ` comment
/// line, then `<key> (<TypeLabel>): ` and the entry's value one level deeper;
/// list items behind `- `; leaves in their serialized text form.
///
/// The text returned is exactly `spec_render(val@, desc_view(description), 0)`,
/// and rendering succeeds exactly when every string leaf serializes
/// (`spec_render_ok`). Nesting deeper than 255 levels is outside the
/// renderer's fixed-width indentation counter and is left out by `requires`.
pub fn document(val: &Value, description: Option<&Value>) -> (r: Result<String, RenderError>)
    requires
        depth(val@) <= 255,
    ensures
        r is Ok <==> spec_render_ok(val@),
        (r matches Ok(s) ==> s@ == spec_render(val@, desc_view(description), 0)),
{
    let mut content = String::new();
    let arg: DescArg = match description {
        Some(d) => DescArg::Top(d),
        None => DescArg::NoDesc,
    };
    match document_val(&mut content, val, arg, 0) {
        Ok(()) => {
            proof {
                assert(content@ =~= spec_render(val@, desc_view(description), 0));
            }
            Ok(content)
        },
        Err(e) => Err(e),
    }
}

proof fn lemma_lookup_found(ps: Seq<(Val, Val)>, k: Val, i: int)
    requires
        0 <= i < ps.len(),
        ps[i].0 == k,
        forall|j: int| 0 <= j < i ==> ps[j].0 != k,
    ensures
        lookup(ps, k) == Some(ps[i].1),
    decreases i,
{
    if i > 0 {
        assert(ps[0].0 != k);
        assert forall|j: int| 0 <= j < i - 1 implies ps.drop_first()[j].0 != k by {
            assert(ps.drop_first()[j] == ps[j + 1]);
        }
        assert(ps.drop_first()[i - 1] == ps[i]);
        lemma_lookup_found(ps.drop_first(), k, i - 1);
    }
}

proof fn lemma_lookup_none(ps: Seq<(Val, Val)>, k: Val)
    requires
        forall|j: int| 0 <= j < ps.len() ==> ps[j].0 != k,
    ensures
        lookup(ps, k) is None,
    decreases ps.len(),
{
    if ps.len() > 0 {
        assert forall|j: int| 0 <= j < ps.len() - 1 implies ps.drop_first()[j].0 != k by {
            assert(ps.drop_first()[j] == ps[j + 1]);
        }
        lemma_lookup_none(ps.drop_first(), k);
    }
}

pub proof fn lemma_lookup_remainder(ps: Seq<(Val, Val)>, k: Val)
    ensures
        lookup(remainder(ps), k) == (if k == description_key_val() {
            None::<Val>
        } else {
            lookup(ps, k)
        }),
    decreases ps.len(),
{
    if ps.len() > 0 {
        lemma_lookup_remainder(ps.drop_first(), k);
        if ps[0].0 == description_key_val() {
            assert(remainder(ps) == remainder(ps.drop_first()));
        } else {
            let r = seq![ps[0]] + remainder(ps.drop_first());
            assert(remainder(ps) == r);
            assert(r[0] == ps[0]);
            assert(r.drop_first() =~= remainder(ps.drop_first()));
        }
    }
}

proof fn lemma_depth_entries_ge(ps: Seq<(Val, Val)>, i: int, j: int)
    requires
        0 <= i <= j < ps.len(),
    ensures
        depth_entries(ps, i) >= depth(ps[j].1),
    decreases j - i,
{
    if i < j {
        lemma_depth_entries_ge(ps, i + 1, j);
    }
}

proof fn lemma_depth_items_ge(es: Seq<Val>, i: int, j: int)
    requires
        0 <= i <= j < es.len(),
    ensures
        depth_items(es, i) >= depth(es[j]),
    decreases j - i,
{
    if i < j {
        lemma_depth_items_ge(es, i + 1, j);
    }
}

proof fn lemma_entries_ok_at(ps: Seq<(Val, Val)>, i: int, j: int)
    requires
        0 <= i <= j < ps.len(),
        entries_ok(ps, i),
    ensures
        spec_render_ok(ps[j].1),
    decreases j - i,
{
    if i < j {
        lemma_entries_ok_at(ps, i + 1, j);
    }
}

proof fn lemma_entries_ok_all(ps: Seq<(Val, Val)>, i: int)
    requires
        0 <= i,
        forall|j: int| i <= j < ps.len() ==> spec_render_ok(#[trigger] ps[j].1),
    ensures
        entries_ok(ps, i),
    decreases ps.len() - i,
{
    if i < ps.len() {
        lemma_entries_ok_all(ps, i + 1);
    }
}

proof fn lemma_items_ok_at(es: Seq<Val>, i: int, j: int)
    requires
        0 <= i <= j < es.len(),
        items_ok(es, i),
    ensures
        spec_render_ok(es[j]),
    decreases j - i,
{
    if i < j {
        lemma_items_ok_at(es, i + 1, j);
    }
}

proof fn lemma_items_ok_all(es: Seq<Val>, i: int)
    requires
        0 <= i,
        forall|j: int| i <= j < es.len() ==> spec_render_ok(#[trigger] es[j]),
    ensures
        items_ok(es, i),
    decreases es.len() - i,
{
    if i < es.len() {
        lemma_items_ok_all(es, i + 1);
    }
}

} // verus!
