//! Laws of the renderer, stated and proved over the output model.

use vstd::prelude::*;

use crate::render::{
    child_desc, comment_of, comment_text, desc_node, description_key_val, indent_seq, key_text, label_text,
    leaf_text, lookup, remainder, render_entries, render_entry, render_items, spec_render,
};
use crate::value::{spec_value_type, Val, ValueType};

verus! {

/// The rendering of a value with no description anywhere: structurally the
/// same listing, with no comment clause at all in its definition.
pub open spec fn render_nc(v: Val, level: nat) -> Seq<char>
    decreases v, 0nat,
{
    match v {
        Val::Mapping(ps) => (if level > 0 {
            "\n"@
        } else {
            Seq::empty()
        }) + nc_entries(ps, level, 0),
        Val::List(es) => "\n"@ + nc_items(es, level, 0),
        _ => leaf_text(v),
    }
}

pub open spec fn nc_entries(ps: Seq<(Val, Val)>, level: nat, i: int) -> Seq<char>
    decreases ps, ps.len() - i,
{
    if i < 0 || i >= ps.len() {
        Seq::empty()
    } else {
        indent_seq(level) + key_text(ps[i].0) + " ("@ + label_text(spec_value_type(ps[i].1))
            + "): "@ + render_nc(ps[i].1, level + 1) + nc_entries(ps, level, i + 1)
    }
}

pub open spec fn nc_items(es: Seq<Val>, level: nat, i: int) -> Seq<char>
    decreases es, es.len() - i,
{
    if i < 0 || i >= es.len() {
        Seq::empty()
    } else {
        indent_seq(level) + "- "@ + render_nc(es[i], level + 1) + nc_items(es, level, i + 1)
    }
}

/// Rendering the same `(value, description)` pair twice yields byte-identical
/// output: the text of a successful render is a function of the value and the
/// description alone (and whether a render succeeds, of the value alone).
pub proof fn lemma_render_idempotent(v: Val, d: Option<Val>, s1: Seq<char>, s2: Seq<char>)
    requires
        s1 == spec_render(v, d, 0),
        s2 == spec_render(v, d, 0),
    ensures
        s1 == s2,
{
}

/// Without a description tree, no comment line is ever emitted: the rendering
/// equals the comment-free form `render_nc`, in which no comment clause
/// exists.
pub proof fn lemma_description_absence(v: Val, level: nat)
    ensures
        spec_render(v, None, level) == render_nc(v, level),
    decreases v, 0nat,
{
    match v {
        Val::Mapping(ps) => {
            lemma_entries_none_nc(ps, level, 0);
        },
        Val::List(es) => {
            lemma_items_none_nc(es, level, 0);
        },
        _ => {},
    }
}

proof fn lemma_entries_none_nc(ps: Seq<(Val, Val)>, level: nat, i: int)
    ensures
        render_entries(ps, None, level, i) == nc_entries(ps, level, i),
    decreases ps, ps.len() - i,
{
    if 0 <= i < ps.len() {
        lemma_description_absence(ps[i].1, level + 1);
        lemma_entries_none_nc(ps, level, i + 1);
        assert(comment_text(ps[i].0, None, level) == Seq::<char>::empty());
        assert(child_desc(ps[i].0, None) is None);
        assert(render_entry(ps[i].0, ps[i].1, None, level) =~= indent_seq(level) + key_text(
            ps[i].0,
        ) + " ("@ + label_text(spec_value_type(ps[i].1)) + "): "@ + render_nc(
            ps[i].1,
            level + 1,
        ));
        assert(render_entries(ps, None, level, i) == nc_entries(ps, level, i));
    }
}

proof fn lemma_items_none_nc(es: Seq<Val>, level: nat, i: int)
    ensures
        render_items(es, level, i) == nc_items(es, level, i),
    decreases es, es.len() - i,
{
    if 0 <= i < es.len() {
        lemma_description_absence(es[i], level + 1);
        lemma_items_none_nc(es, level, i + 1);
        assert(render_items(es, level, i) =~= nc_items(es, level, i));
    }
}

/// Descriptions never flow into list elements: whatever the description, a
/// list renders exactly as it does with no description at all, so no key
/// inside a list element ever receives a comment line.
pub proof fn lemma_list_suppression(es: Seq<Val>, d: Option<Val>, level: nat)
    ensures
        spec_render(Val::List(es), d, level) == render_nc(Val::List(es), level),
{
    lemma_items_none_nc(es, level, 0);
}

/// Mapping entries are emitted in the mapping's own iteration order: the
/// rendered entries from position `i` on are the fragment of entry `i`
/// followed by the fragments of the entries after it, and the whole mapping
/// is its leading separator followed by the fragments from position 0.
pub proof fn lemma_order_preservation(ps: Seq<(Val, Val)>, d: Option<Val>, level: nat, i: int)
    requires
        0 <= i < ps.len(),
    ensures
        render_entries(ps, d, level, i) == render_entry(ps[i].0, ps[i].1, d, level)
            + render_entries(ps, d, level, i + 1),
        spec_render(Val::Mapping(ps), d, level) == (if level > 0 {
            "\n"@
        } else {
            Seq::empty()
        }) + render_entries(ps, d, level, 0),
{
}

/// Two description mappings that locate the same node for every key render
/// every value identically: reordering a description mapping's (unique) keys
/// never reorders nor otherwise changes the output.
pub proof fn lemma_description_reorder(
    v: Val,
    d1: Seq<(Val, Val)>,
    d2: Seq<(Val, Val)>,
    level: nat,
)
    requires
        forall|k: Val| lookup(d1, k) == lookup(d2, k),
    ensures
        spec_render(v, Some(Val::Mapping(d1)), level) == spec_render(
            v,
            Some(Val::Mapping(d2)),
            level,
        ),
{
    match v {
        Val::Mapping(ps) => {
            lemma_entries_desc_equiv(ps, Some(Val::Mapping(d1)), Some(Val::Mapping(d2)), level, 0);
        },
        _ => {},
    }
}

proof fn lemma_entries_desc_equiv(
    ps: Seq<(Val, Val)>,
    d1: Option<Val>,
    d2: Option<Val>,
    level: nat,
    i: int,
)
    requires
        forall|k: Val| desc_node(d1, k) == desc_node(d2, k),
    ensures
        render_entries(ps, d1, level, i) == render_entries(ps, d2, level, i),
    decreases ps.len() - i,
{
    if 0 <= i < ps.len() {
        lemma_entries_desc_equiv(ps, d1, d2, level, i + 1);
        assert(desc_node(d1, ps[i].0) == desc_node(d2, ps[i].0));
        assert(comment_of(ps[i].0, d1) == comment_of(ps[i].0, d2));
        assert(child_desc(ps[i].0, d1) == child_desc(ps[i].0, d2));
        assert(render_entry(ps[i].0, ps[i].1, d1, level) == render_entry(
            ps[i].0,
            ps[i].1,
            d2,
            level,
        ));
    }
}

/// Whether no two entries of a mapping share a key.
pub open spec fn unique_keys(ps: Seq<(Val, Val)>) -> bool {
    forall|i: int, j: int| 0 <= i < j < ps.len() ==> (#[trigger] ps[i]).0 != (#[trigger] ps[j]).0
}

proof fn lemma_lookup_some_contains(ps: Seq<(Val, Val)>, k: Val)
    requires
        lookup(ps, k) is Some,
    ensures
        ps.contains((k, lookup(ps, k).unwrap())),
    decreases ps.len(),
{
    let v = lookup(ps, k).unwrap();
    if ps[0].0 == k {
        assert(ps[0] == (k, v));
    } else {
        lemma_lookup_some_contains(ps.drop_first(), k);
        let i = choose|i: int| 0 <= i < ps.drop_first().len() && ps.drop_first()[i] == (k, v);
        assert(ps[i + 1] == (k, v));
    }
}

proof fn lemma_contains_key_lookup_some(ps: Seq<(Val, Val)>, k: Val, v: Val)
    requires
        ps.contains((k, v)),
    ensures
        lookup(ps, k) is Some,
    decreases ps.len(),
{
    if ps[0].0 != k {
        let i = choose|i: int| 0 <= i < ps.len() && ps[i] == (k, v);
        assert(i != 0);
        assert(ps.drop_first()[i - 1] == (k, v));
        lemma_contains_key_lookup_some(ps.drop_first(), k, v);
    }
}

proof fn lemma_lookup_none_no_key(ps: Seq<(Val, Val)>, k: Val)
    requires
        lookup(ps, k) is None,
    ensures
        forall|j: int| 0 <= j < ps.len() ==> (#[trigger] ps[j]).0 != k,
    decreases ps.len(),
{
    if ps.len() > 0 {
        lemma_lookup_none_no_key(ps.drop_first(), k);
        assert forall|j: int| 0 <= j < ps.len() implies (#[trigger] ps[j]).0 != k by {
            if j > 0 {
                assert(ps.drop_first()[j - 1] == ps[j]);
            }
        }
    }
}

/// A reordering of a description mapping with unique keys locates the same
/// node for every key.
pub proof fn lemma_reorder_preserves_lookup(d1: Seq<(Val, Val)>, d2: Seq<(Val, Val)>, k: Val)
    requires
        unique_keys(d1),
        d2.to_multiset() == d1.to_multiset(),
    ensures
        lookup(d2, k) == lookup(d1, k),
{
    broadcast use vstd::seq_lib::group_to_multiset_ensures;

    match lookup(d1, k) {
        Some(v) => {
            lemma_lookup_some_contains(d1, k);
            assert(d1.to_multiset().count((k, v)) > 0);
            assert(d2.contains((k, v)));
            lemma_contains_key_lookup_some(d2, k, v);
            let w = lookup(d2, k).unwrap();
            lemma_lookup_some_contains(d2, k);
            assert(d2.to_multiset().count((k, w)) > 0);
            assert(d1.contains((k, w)));
            let i = choose|i: int| 0 <= i < d1.len() && d1[i] == (k, v);
            let j = choose|j: int| 0 <= j < d1.len() && d1[j] == (k, w);
            if i != j {
                assert(d1[i].0 == d1[j].0);
                assert(false);
            }
        },
        None => {
            lemma_lookup_none_no_key(d1, k);
            if lookup(d2, k) is Some {
                let v = lookup(d2, k).unwrap();
                lemma_lookup_some_contains(d2, k);
                assert(d2.to_multiset().count((k, v)) > 0);
                assert(d1.contains((k, v)));
                let i = choose|i: int| 0 <= i < d1.len() && d1[i] == (k, v);
                assert(d1[i].0 == k);
                assert(false);
            }
        },
    }
}

/// Reordering the description tree's keys never reorders (nor otherwise
/// changes) the output: under a description mapping with unique keys, every
/// value renders identically to how it renders under any reordering of that
/// mapping's entries.
pub proof fn lemma_description_permutation(
    v: Val,
    d1: Seq<(Val, Val)>,
    d2: Seq<(Val, Val)>,
    level: nat,
)
    requires
        unique_keys(d1),
        d2.to_multiset() == d1.to_multiset(),
    ensures
        spec_render(v, Some(Val::Mapping(d2)), level) == spec_render(
            v,
            Some(Val::Mapping(d1)),
            level,
        ),
{
    assert forall|k: Val| lookup(d1, k) == lookup(d2, k) by {
        lemma_reorder_preserves_lookup(d1, d2, k);
    }
    lemma_description_reorder(v, d1, d2, level);
}

/// When the description node located for a key is a mapping holding the
/// reserved field `__description__: x` beside sibling keys, the comment for
/// that key is exactly `x`, and every sibling key remains available as a
/// description for the value's own children.
pub proof fn lemma_description_field_priority(
    k: Val,
    v: Val,
    d: Seq<(Val, Val)>,
    m: Seq<(Val, Val)>,
    level: nat,
    x: Seq<char>,
)
    requires
        lookup(d, k) == Some(Val::Mapping(m)),
        lookup(m, description_key_val()) == Some(Val::Str(x)),
    ensures
        comment_of(k, Some(Val::Mapping(d))) == Some(x),
        child_desc(k, Some(Val::Mapping(d))) == Some(Val::Mapping(remainder(m))),
        forall|k2: Val| k2 != description_key_val() ==> lookup(#[trigger] remainder(m), k2) == lookup(m, k2),
        render_entry(k, v, Some(Val::Mapping(d)), level) == indent_seq(level) + "# "@ + x + "\n"@
            + indent_seq(level) + key_text(k) + " ("@ + label_text(spec_value_type(v)) + "): "@
            + spec_render(v, Some(Val::Mapping(remainder(m))), level + 1),
{
    assert forall|k2: Val| k2 != description_key_val() implies lookup(#[trigger] remainder(m), k2) == lookup(
        m,
        k2,
    ) by {
        crate::render::lemma_lookup_remainder(m, k2);
    }
    assert(render_entry(k, v, Some(Val::Mapping(d)), level) =~= indent_seq(level) + "# "@ + x
        + "\n"@ + indent_seq(level) + key_text(k) + " ("@ + label_text(spec_value_type(v)) + "): "@
        + spec_render(v, Some(Val::Mapping(remainder(m))), level + 1));
}

/// The emitted type label matches the value's variant, for each of the seven
/// variants.
pub proof fn lemma_type_label_correct(v: Val)
    ensures
        v is Null ==> spec_value_type(v) == ValueType::Null,
        v is Bool ==> spec_value_type(v) == ValueType::Bool,
        v is Number ==> spec_value_type(v) == ValueType::Number,
        v is Str ==> spec_value_type(v) == ValueType::String,
        v is List ==> spec_value_type(v) == ValueType::List,
        v is Mapping ==> spec_value_type(v) == ValueType::Mapping,
        v is Tagged ==> spec_value_type(v) == ValueType::Tagged,
{
}

} // verus!

