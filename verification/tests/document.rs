use yaml_extras::render::{document, indent, RenderError};
use yaml_extras::value::{value_type, Value, ValueType};

fn s(text: &str) -> Value {
    Value::String(text.to_owned())
}

fn mapping(entries: Vec<(Value, Value)>) -> Value {
    Value::Mapping(entries)
}

#[test]
fn document_simple() {
    // data: {foo: {bar: 42}}
    let value = mapping(vec![(s("foo"), mapping(vec![(s("bar"), Value::Number(42))]))]);
    // description: {foo: {__description__: "Description for foo",
    //                     bar: "Description for bar"}}
    let desc = mapping(vec![(
        s("foo"),
        mapping(vec![
            (s("__description__"), s("Description for foo")),
            (s("bar"), s("Description for bar")),
        ]),
    )]);
    let expected = "# Description for foo\nfoo (Mapping): \n    # Description for bar\n    bar (Number): 42\n";
    let out = document(&value, Some(&desc)).unwrap();
    assert_eq!(out, expected);
}

#[test]
fn render_is_idempotent() {
    let value = mapping(vec![
        (s("a"), Value::Bool(true)),
        (s("b"), Value::List(vec![Value::Number(1), Value::Number(2)])),
    ]);
    let desc = mapping(vec![(s("a"), s("first field"))]);
    let once = document(&value, Some(&desc)).unwrap();
    let twice = document(&value, Some(&desc)).unwrap();
    assert_eq!(once, twice);
}

#[test]
fn order_follows_iteration_order() {
    let value = mapping(vec![
        (s("zeta"), Value::Number(1)),
        (s("alpha"), Value::Number(2)),
        (s("mid"), Value::Number(3)),
    ]);
    let out = document(&value, None).unwrap();
    assert_eq!(out, "zeta (Number): 1\nalpha (Number): 2\nmid (Number): 3\n");
}

#[test]
fn reordered_description_keys_do_not_reorder_output() {
    let value = mapping(vec![(s("a"), Value::Number(1)), (s("b"), Value::Number(2))]);
    let desc1 = mapping(vec![(s("a"), s("A")), (s("b"), s("B"))]);
    let desc2 = mapping(vec![(s("b"), s("B")), (s("a"), s("A"))]);
    let out1 = document(&value, Some(&desc1)).unwrap();
    let out2 = document(&value, Some(&desc2)).unwrap();
    assert_eq!(out1, out2);
    assert_eq!(out1, "# A\na (Number): 1\n# B\nb (Number): 2\n");
}

#[test]
fn no_description_means_no_comment_lines() {
    let value = mapping(vec![
        (s("a"), Value::Null),
        (
            s("b"),
            mapping(vec![(s("c"), Value::List(vec![Value::Bool(false), s("plain")]))]),
        ),
    ]);
    let out = document(&value, None).unwrap();
    for line in out.lines() {
        assert!(!line.trim_start().starts_with("# "));
    }
}

#[test]
fn description_field_priority() {
    // The located description mapping holds the reserved field beside a
    // sibling; the comment is exactly the reserved field's text and the
    // sibling still describes the child.
    let value = mapping(vec![(s("outer"), mapping(vec![(s("inner"), Value::Number(5))]))]);
    let desc = mapping(vec![(
        s("outer"),
        mapping(vec![(s("__description__"), s("X")), (s("inner"), s("inner doc"))]),
    )]);
    let out = document(&value, Some(&desc)).unwrap();
    assert_eq!(
        out,
        "# X\nouter (Mapping): \n    # inner doc\n    inner (Number): 5\n"
    );
}

#[test]
fn reserved_key_does_not_describe_children() {
    // A data field literally named __description__ below a located mapping is
    // not commented by the reserved field of that mapping.
    let value = mapping(vec![(
        s("outer"),
        mapping(vec![(s("__description__"), Value::Number(9))]),
    )]);
    let desc = mapping(vec![(
        s("outer"),
        mapping(vec![(s("__description__"), s("outer doc"))]),
    )]);
    let out = document(&value, Some(&desc)).unwrap();
    assert_eq!(
        out,
        "# outer doc\nouter (Mapping): \n    __description__ (Number): 9\n"
    );
}

#[test]
fn reserved_key_at_top_level_is_documented_like_any_field() {
    let value = mapping(vec![(s("__description__"), Value::Number(1))]);
    let desc = mapping(vec![(s("__description__"), s("top doc"))]);
    let out = document(&value, Some(&desc)).unwrap();
    assert_eq!(out, "# top doc\n__description__ (Number): 1\n");
}

#[test]
fn lists_suppress_descriptions() {
    let element = mapping(vec![(s("k"), Value::Number(1))]);
    let value = mapping(vec![(s("items"), Value::List(vec![element]))]);
    let desc = mapping(vec![(
        s("items"),
        mapping(vec![(s("k"), s("should never appear"))]),
    )]);
    let out = document(&value, Some(&desc)).unwrap();
    assert!(!out.contains("# "));
    assert_eq!(out, "items (List): \n    - \n        k (Number): 1\n");
}

#[test]
fn type_labels_match_variants() {
    let value = mapping(vec![
        (s("a"), Value::Null),
        (s("b"), Value::Bool(false)),
        (s("c"), Value::Number(0)),
        (s("d"), s("t")),
        (s("e"), Value::List(vec![])),
        (s("f"), mapping(vec![])),
        (s("g"), Value::Tagged("Tag".to_owned(), Box::new(Value::Null))),
    ]);
    let out = document(&value, None).unwrap();
    assert_eq!(
        out,
        "a (Null): null\nb (Bool): false\nc (Number): 0\nd (String): t\ne (List): \nf (Mapping): \ng (Tagged): !Tag null\n"
    );
}

#[test]
fn mismatched_description_shape_is_ignored() {
    // description {foo: [1, 2]}: a list is neither a string nor a mapping, so
    // no comment and no error.
    let value = mapping(vec![(s("foo"), Value::Number(1))]);
    let desc = mapping(vec![(
        s("foo"),
        Value::List(vec![Value::Number(1), Value::Number(2)]),
    )]);
    let out = document(&value, Some(&desc)).unwrap();
    assert_eq!(out, "foo (Number): 1\n");
}

#[test]
fn empty_mapping_renders_empty() {
    let out = document(&mapping(vec![]), None).unwrap();
    assert_eq!(out, "");
}

#[test]
fn empty_list_emits_only_its_leading_newline() {
    let out = document(&Value::List(vec![]), None).unwrap();
    assert_eq!(out, "\n");
}

#[test]
fn non_string_keys_use_flow_form() {
    let value = mapping(vec![
        (Value::Number(7), Value::Null),
        (
            Value::List(vec![Value::Number(1), Value::Number(2)]),
            Value::Bool(true),
        ),
    ]);
    let out = document(&value, None).unwrap();
    assert_eq!(out, "7 (Null): null\n[1, 2] (Bool): true\n");
}

#[test]
fn numbers_render_in_decimal() {
    let value = mapping(vec![
        (s("zero"), Value::Number(0)),
        (s("neg"), Value::Number(-37)),
        (s("big"), Value::Number(9007199254740993)),
        (s("min"), Value::Number(i64::MIN)),
        (s("max"), Value::Number(i64::MAX)),
    ]);
    let out = document(&value, None).unwrap();
    assert_eq!(
        out,
        "zero (Number): 0\nneg (Number): -37\nbig (Number): 9007199254740993\nmin (Number): -9223372036854775808\nmax (Number): 9223372036854775807\n"
    );
}

#[test]
fn string_leaves_go_through_yaml_serialization() {
    // A string that YAML must quote: the output is the serializer's text, not
    // the raw characters.
    let value = mapping(vec![(s("tricky"), s("true"))]);
    let out = document(&value, None).unwrap();
    assert_eq!(out, "tricky (String): 'true'\n");
    let plain = mapping(vec![(s("word"), s("hello"))]);
    assert_eq!(document(&plain, None).unwrap(), "word (String): hello\n");
}

#[test]
fn comment_text_is_taken_verbatim() {
    let value = mapping(vec![(s("k"), Value::Number(3))]);
    let desc = mapping(vec![(s("k"), s("line with: punctuation, and words"))]);
    let out = document(&value, Some(&desc)).unwrap();
    assert_eq!(out, "# line with: punctuation, and words\nk (Number): 3\n");
}

#[test]
fn value_type_classifies_variants() {
    assert_eq!(value_type(&Value::Null), ValueType::Null);
    assert_eq!(value_type(&Value::Bool(true)), ValueType::Bool);
    assert_eq!(value_type(&Value::Number(1)), ValueType::Number);
    assert_eq!(value_type(&s("x")), ValueType::String);
    assert_eq!(value_type(&Value::List(vec![])), ValueType::List);
    assert_eq!(value_type(&mapping(vec![])), ValueType::Mapping);
    assert_eq!(
        value_type(&Value::Tagged("t".to_owned(), Box::new(Value::Null))),
        ValueType::Tagged
    );
}

#[test]
fn indent_appends_four_spaces_per_level() {
    let mut content = "x".to_owned();
    indent(&mut content, 0);
    assert_eq!(content, "x");
    indent(&mut content, 3);
    assert_eq!(content, "x            ");
}

#[test]
fn errors_compare_by_message() {
    let a = RenderError::Serialization("m".to_owned());
    let b = RenderError::Serialization("m".to_owned());
    assert_eq!(a, b);
}
