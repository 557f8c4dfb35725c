use template_engine::engine::render_template;
use template_engine::value::Value;

fn tpls(pairs: &[(&str, &str)]) -> Vec<(String, String)> {
    pairs
        .iter()
        .map(|(p, t)| (p.to_string(), t.to_string()))
        .collect()
}

fn scalar(s: &str) -> Value {
    Value::Scalar(s.to_string())
}

fn dict(pairs: Vec<(&str, Value)>) -> Value {
    Value::Dict(pairs.into_iter().map(|(k, v)| (k.to_string(), v)).collect())
}

fn embed_kw() -> String {
    ['i', 'n', 'c', 'l', 'u', 'd', 'e'].iter().collect()
}

#[test]
fn it_works() {
    let result = 2 + 2;
    assert_eq!(result, 4);
}

#[test]
fn plain_text_renders_identically() {
    let t = tpls(&[("page", "hello world, no tags here.")]);
    let out = render_template(&t, "page", Value::Null, 8);
    assert_eq!(out, "hello world, no tags here.");
}

#[test]
fn lone_brace_is_literal_text() {
    let t = tpls(&[("page", "a{b } c")]);
    let out = render_template(&t, "page", Value::Null, 8);
    assert_eq!(out, "a{b } c");
}

#[test]
fn scalar_variable_round_trip() {
    let t = tpls(&[("page", "{{ name }}")]);
    let out = render_template(&t, "page", dict(vec![("name", scalar("Ann"))]), 8);
    assert_eq!(out, "Ann");
}

#[test]
fn unresolved_variable_renders_empty() {
    let t = tpls(&[("page", "a{{ missing }}b")]);
    let out = render_template(&t, "page", Value::Null, 8);
    assert_eq!(out, "ab");
}

#[test]
fn non_scalar_variable_renders_empty() {
    let t = tpls(&[("page", "a{{ items }}b")]);
    let ctx = dict(vec![("items", Value::List(vec![scalar("1")]))]);
    let out = render_template(&t, "page", ctx, 8);
    assert_eq!(out, "ab");
}

#[test]
fn rendering_twice_is_identical() {
    let t = tpls(&[(
        "page",
        "{% for it in items %}{{ it }}{% endfor %}-{{ name }}",
    )]);
    let ctx = || {
        dict(vec![
            ("items", Value::List(vec![scalar("1"), scalar("2")])),
            ("name", scalar("x")),
        ])
    };
    let first = render_template(&t, "page", ctx(), 8);
    let second = render_template(&t, "page", ctx(), 8);
    assert_eq!(first, second);
    assert_eq!(first, "12-x");
}

#[test]
fn inheritance_child_overrides_with_parent_call() {
    let t = tpls(&[
        ("r", "{% block x %}A{% endblock %}"),
        ("c", "{% extends \"r\" %}{% block x %}B{{ parent() }}{% endblock %}"),
    ]);
    let out = render_template(&t, "c", Value::Null, 8);
    assert_eq!(out, "BA");
}

#[test]
fn inheritance_three_levels() {
    let t = tpls(&[
        ("r", "{% block x %}A{% endblock %}"),
        ("c", "{% extends \"r\" %}{% block x %}B{{ parent() }}{% endblock %}"),
        ("g", "{% extends 'c' %}{% block x %}C2{{ parent() }}{% endblock %}"),
    ]);
    let out = render_template(&t, "g", Value::Null, 8);
    assert_eq!(out, "C2BA");
}

#[test]
fn missing_parent_renders_sentinel() {
    let t = tpls(&[("r", "{% block x %}{{ parent() }}{% endblock %}")]);
    let out = render_template(&t, "r", Value::Null, 8);
    assert_eq!(out, "MISSING PARENT BLOCK");
}

#[test]
fn loop_renders_each_item_in_order() {
    let t = tpls(&[("page", "{% for it in items %}{{ it }}{% endfor %}")]);
    let ctx = dict(vec![("items", Value::List(vec![scalar("1"), scalar("2")]))]);
    let out = render_template(&t, "page", ctx, 8);
    assert_eq!(out, "12");
}

#[test]
fn loop_over_empty_list_renders_nothing() {
    let t = tpls(&[("page", "a{% for it in items %}{{ it }}{% endfor %}b")]);
    let ctx = dict(vec![("items", Value::List(vec![]))]);
    let out = render_template(&t, "page", ctx, 8);
    assert_eq!(out, "ab");
}

#[test]
fn loop_target_not_a_list_is_reported() {
    let t = tpls(&[("page", "{% for it in items %}x{% endfor %}")]);
    let ctx = dict(vec![("items", scalar("1"))]);
    let out = render_template(&t, "page", ctx, 8);
    assert_eq!(out, "loop collection is not iterable");
}

#[test]
fn loop_target_unresolved_is_reported() {
    let t = tpls(&[("page", "{% for it in absent %}x{% endfor %}")]);
    let out = render_template(&t, "page", Value::Null, 8);
    assert_eq!(out, "loop collection is not iterable");
}

#[test]
fn unknown_tag_renders_nothing_and_parsing_continues() {
    let t = tpls(&[("page", "a{% wat %}b")]);
    let out = render_template(&t, "page", Value::Null, 8);
    assert_eq!(out, "ab");
}

#[test]
fn nested_path_resolves_and_missing_leaf_is_empty() {
    let t = tpls(&[("page", "{{ user.name }}:{{ user.missing }}")]);
    let ctx = dict(vec![("user", dict(vec![("name", scalar("Ann"))]))]);
    let out = render_template(&t, "page", ctx, 8);
    assert_eq!(out, "Ann:");
}

#[test]
fn embedded_template_renders_in_place() {
    let main = format!("X{{% {} 'part' %}}Y", embed_kw());
    let t = tpls(&[("page", &main), ("part", "P{{ name }}")]);
    let ctx = dict(vec![("name", scalar("q"))]);
    let out = render_template(&t, "page", ctx, 8);
    assert_eq!(out, "XPqY");
}

#[test]
fn embedded_template_missing_is_reported_inline() {
    let main = format!("X{{% {} 'absent' %}}Y", embed_kw());
    let t = tpls(&[("page", &main)]);
    let out = render_template(&t, "page", Value::Null, 8);
    assert_eq!(out, "Xmissing template: absentY");
}

#[test]
fn embedded_extends_renders_placeholder() {
    let main = format!("X{{% {} 'child' %}}Y", embed_kw());
    let t = tpls(&[
        ("page", &main),
        ("child", "{% extends 'page' %}"),
    ]);
    let out = render_template(&t, "page", Value::Null, 8);
    assert_eq!(out, "XEMBEDDED EXTENDS NOT SUPPORTEDY");
}

#[test]
fn self_embedding_stops_at_depth_cap() {
    let main = format!("{{% {} 'page' %}}", embed_kw());
    let t = tpls(&[("page", &main)]);
    let out = render_template(&t, "page", Value::Null, 2);
    assert_eq!(out, "DEPTH LIMIT EXCEEDED");
}

#[test]
fn missing_root_template_is_reported() {
    let t = tpls(&[]);
    let out = render_template(&t, "nowhere", Value::Null, 8);
    assert_eq!(out, "missing template: nowhere");
}

#[test]
fn extends_chain_with_missing_ancestor_is_reported() {
    let t = tpls(&[("c", "{% extends 'gone' %}")]);
    let out = render_template(&t, "c", Value::Null, 8);
    assert_eq!(out, "missing template: gone");
}

#[test]
fn extends_cycle_stops_at_depth_cap() {
    let t = tpls(&[
        ("a", "{% extends 'b' %}"),
        ("b", "{% extends 'a' %}"),
    ]);
    let out = render_template(&t, "a", Value::Null, 4);
    assert_eq!(out, "DEPTH LIMIT EXCEEDED");
}

#[test]
fn block_not_declared_in_root_is_dropped() {
    let t = tpls(&[
        ("r", "only root content"),
        ("c", "{% extends 'r' %}{% block x %}ignored{% endblock %}"),
    ]);
    let out = render_template(&t, "c", Value::Null, 8);
    assert_eq!(out, "only root content");
}

#[test]
fn unoverridden_block_renders_as_declared() {
    let t = tpls(&[
        ("r", "[{% block x %}A{% endblock %}|{% block y %}B{% endblock %}]"),
        ("c", "{% extends 'r' %}{% block y %}Z{% endblock %}"),
    ]);
    let out = render_template(&t, "c", Value::Null, 8);
    assert_eq!(out, "[A|Z]");
}

#[test]
fn extends_file_stray_text_is_discarded() {
    let t = tpls(&[
        ("r", "{% block x %}A{% endblock %}"),
        ("c", "{% extends 'r' %}stray{% block x %}B{% endblock %}more"),
    ]);
    let out = render_template(&t, "c", Value::Null, 8);
    assert_eq!(out, "B");
}

#[test]
fn empty_template_renders_empty() {
    let t = tpls(&[("page", "")]);
    let out = render_template(&t, "page", Value::Null, 8);
    assert_eq!(out, "");
}

#[test]
fn later_duplicate_block_in_extends_file_wins() {
    let t = tpls(&[
        ("r", "{% block x %}A{% endblock %}"),
        (
            "c",
            "{% extends 'r' %}{% block x %}first{% endblock %}{% block x %}second{% endblock %}",
        ),
    ]);
    let out = render_template(&t, "c", Value::Null, 8);
    assert_eq!(out, "second");
}

#[test]
fn nested_blocks_render_inside_out() {
    let t = tpls(&[(
        "page",
        "{% block a %}x{% block b %}y{% endblock %}z{% endblock %}",
    )]);
    let out = render_template(&t, "page", Value::Null, 8);
    assert_eq!(out, "xyz");
}

#[test]
fn nested_loops_resolve_inner_collection_from_loop_binding() {
    let t = tpls(&[(
        "page",
        "{% for row in rows %}{% for c in row %}{{ c }}{% endfor %};{% endfor %}",
    )]);
    let ctx = dict(vec![(
        "rows",
        Value::List(vec![
            Value::List(vec![scalar("1"), scalar("2")]),
            Value::List(vec![scalar("3")]),
        ]),
    )]);
    let out = render_template(&t, "page", ctx, 8);
    assert_eq!(out, "12;3;");
}

#[test]
fn loop_variable_shadows_context_and_keeps_last_item_within_scope() {
    let t = tpls(&[(
        "page",
        "{{ it }}-{% for it in items %}{{ it }}{% endfor %}-{{ it }}",
    )]);
    let ctx = dict(vec![
        ("it", scalar("outer")),
        ("items", Value::List(vec![scalar("1"), scalar("2")])),
    ]);
    let out = render_template(&t, "page", ctx, 8);
    assert_eq!(out, "outer-12-outer");
}
