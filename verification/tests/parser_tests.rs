use template_engine::ast::{BlockTag, Content, ParseError, Template};
use template_engine::env::{Environment, Scope};
use template_engine::parse::parse;
use template_engine::value::{get_path, Value};

fn parse_err(src: &str) -> ParseError {
    match parse(src) {
        Err(e) => e,
        Ok(_) => panic!("expected a parse error"),
    }
}

fn embed_kw() -> String {
    ['i', 'n', 'c', 'l', 'u', 'd', 'e'].iter().collect()
}

#[test]
fn tag_free_text_is_one_text_node() {
    match parse("hello world").expect("parses") {
        Template::Module(m) => {
            assert_eq!(m.children.len(), 1);
            assert!(matches!(&m.children[0], Content::Text(t) if t == "hello world"));
        }
        Template::Extends(_) => panic!("not an extends file"),
    }
}

#[test]
fn variable_payload_is_trimmed() {
    match parse("{{   user.name \t }}").expect("parses") {
        Template::Module(m) => {
            assert_eq!(m.children.len(), 1);
            assert!(matches!(&m.children[0], Content::Var(p) if p == "user.name"));
        }
        Template::Extends(_) => panic!("not an extends file"),
    }
}

#[test]
fn parent_call_needs_surrounding_spaces() {
    match parse("{{parent()}}").expect("parses") {
        Template::Module(m) => {
            assert!(matches!(&m.children[0], Content::Var(p) if p == "parent()"));
        }
        Template::Extends(_) => panic!("not an extends file"),
    }
    match parse("{{ parent() }}").expect("parses") {
        Template::Module(m) => {
            assert!(matches!(&m.children[0], Content::ParentMarker(None)));
        }
        Template::Extends(_) => panic!("not an extends file"),
    }
}

#[test]
fn block_tag_parses_name_and_body() {
    match parse("{% block head %}T{% endblock %}").expect("parses") {
        Template::Module(m) => {
            assert_eq!(m.children.len(), 1);
            match &m.children[0] {
                Content::Block(b) => {
                    assert!(matches!(&b.tag, BlockTag::Named(n) if n == "head"));
                    assert_eq!(b.children.len(), 1);
                    assert!(matches!(&b.children[0], Content::Text(t) if t == "T"));
                }
                _ => panic!("expected a block"),
            }
        }
        Template::Extends(_) => panic!("not an extends file"),
    }
}

#[test]
fn loop_tag_parses_item_and_collection() {
    match parse("{% for it in a.b %}{% endfor %}").expect("parses") {
        Template::Module(m) => match &m.children[0] {
            Content::Block(b) => {
                assert!(matches!(&b.tag, BlockTag::Loop(v, c) if v == "it" && c == "a.b"));
            }
            _ => panic!("expected a block"),
        },
        Template::Extends(_) => panic!("not an extends file"),
    }
}

#[test]
fn embed_tag_parses_quoted_path() {
    let src = format!("{{% {} \"p/q.html\" %}}", embed_kw());
    match parse(&src).expect("parses") {
        Template::Module(m) => match &m.children[0] {
            Content::Block(b) => {
                assert!(matches!(&b.tag, BlockTag::Embed(p) if p == "p/q.html"));
                assert_eq!(b.children.len(), 0);
            }
            _ => panic!("expected a block"),
        },
        Template::Extends(_) => panic!("not an extends file"),
    }
}

#[test]
fn extends_file_collects_named_blocks() {
    match parse("{% extends \"base\" %}x{% block a %}1{% endblock %}{% block b %}2{% endblock %}")
        .expect("parses")
    {
        Template::Extends(e) => {
            assert_eq!(e.parent_path, "base");
            assert_eq!(e.blocks.len(), 2);
            assert_eq!(e.blocks[0].0, "a");
            assert_eq!(e.blocks[1].0, "b");
        }
        Template::Module(_) => panic!("expected an extends file"),
    }
}

#[test]
fn extends_not_at_start_is_unrecognized() {
    match parse(" {% extends 'base' %}").expect("parses") {
        Template::Module(m) => {
            assert!(matches!(&m.children[0], Content::Text(t) if t == " "));
            match &m.children[1] {
                Content::Block(b) => assert!(matches!(&b.tag, BlockTag::Unrecognized)),
                _ => panic!("expected a block"),
            }
        }
        Template::Extends(_) => panic!("should not be an extends file"),
    }
}

#[test]
fn unterminated_variable_is_an_error() {
    assert_eq!(parse_err("a{{ x"), ParseError::UnterminatedVariable);
}

#[test]
fn unterminated_tag_is_an_error() {
    assert_eq!(parse_err("a{% wat"), ParseError::UnterminatedTag);
}

#[test]
fn unterminated_block_is_an_error() {
    assert_eq!(
        parse_err("{% block x %}abc"),
        ParseError::UnterminatedBlock
    );
    assert_eq!(
        parse_err("{% for i in xs %}abc"),
        ParseError::UnterminatedBlock
    );
}

#[test]
fn input_ending_at_delimiter_is_an_error() {
    assert_eq!(
        parse_err("abc{{"),
        ParseError::UnexpectedEndOfInput
    );
    assert_eq!(
        parse_err("abc{%"),
        ParseError::UnexpectedEndOfInput
    );
}

#[test]
fn close_tag_spelling_is_exact() {
    assert_eq!(
        parse_err("{% block x %}a{%  endblock  %}"),
        ParseError::UnterminatedBlock
    );
}

#[test]
fn path_lookup_walks_keyed_values() {
    let v = Value::Dict(vec![(
        "a".to_string(),
        Value::Dict(vec![("b".to_string(), Value::Scalar("deep".to_string()))]),
    )]);
    match get_path(&v, "a.b") {
        Some(Value::Scalar(s)) => assert_eq!(s, "deep"),
        _ => panic!("expected the nested scalar"),
    }
    assert!(get_path(&v, "a.b.c").is_none());
    assert!(get_path(&v, "missing").is_none());
    assert!(matches!(get_path(&v, ""), Some(Value::Dict(_))));
}

#[test]
fn environment_scopes_shadow_and_pop() {
    let ctx = Value::Dict(vec![("x".to_string(), Value::Scalar("root".to_string()))]);
    let mut env = Environment::new(ctx);
    assert_eq!(env.get("x").as_deref(), Some("root"));
    env.push(Scope::new());
    env.set("x", Value::Scalar("inner".to_string()));
    assert_eq!(env.get("x").as_deref(), Some("inner"));
    env.push(Scope::new());
    assert_eq!(env.get("x").as_deref(), Some("inner"));
    env.pop();
    env.pop();
    assert_eq!(env.get("x").as_deref(), Some("root"));
    assert!(env.get("y").is_none());
}

#[test]
fn environment_get_value_descends_into_bound_items() {
    let mut env = Environment::new(Value::Null);
    env.push(Scope::new());
    env.set(
        "it",
        Value::Dict(vec![("name".to_string(), Value::Scalar("Ann".to_string()))]),
    );
    match env.get_value("it.name") {
        Some(Value::Scalar(s)) => assert_eq!(s, "Ann"),
        _ => panic!("expected the bound scalar"),
    }
    assert!(env.get("it").is_none());
}
