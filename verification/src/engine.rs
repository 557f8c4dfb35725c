//! The whole engine: load the root template from a path-to-text list,
//! resolve its extends chain, apply the merged overrides, and render
//! against the caller's data context.
//!
//! A failed top-level load or parse, an exhausted extends chain, and a
//! non-iterable loop target all yield a message string in place of
//! rendered output: every fatal condition becomes visible text.
use vstd::prelude::*;

use crate::ast::{
    blocks_v, extends_v, module_v, parse_error_text, render_error_text, template_v, BlockV,
    Extends, Module, ModuleV, Template, TemplateV,
};
use crate::env::{env_v, EnvV, Environment};
use crate::parse::{parse, sp_template};
use crate::render::{
    depth_limit_lit, lookup_template, missing_template_text, render_nodes, sp_render_nodes,
    tpls_v,
};
use crate::resolve::{sp_apply, sp_extends_add};
use crate::table::assoc_get;
use crate::value::{value_v, Value};

verus! {

/// Walk the extends chain: merge each layer's overrides, load and parse
/// its parent, until the inheritance root module is found; a missing or
/// unparsable ancestor, or a chain deeper than `depth`, is an error text.
pub open spec fn sp_resolve_loop(
    tpls: Seq<(Seq<char>, Seq<char>)>,
    t: TemplateV,
    acc: Seq<(Seq<char>, BlockV)>,
    depth: nat,
) -> Result<(ModuleV, Seq<(Seq<char>, BlockV)>), Seq<char>>
    decreases depth,
{
    match t {
        TemplateV::Module(m) => Result::Ok((m, acc)),
        TemplateV::Extends(e) => if depth == 0 {
            Result::Err(depth_limit_lit())
        } else {
            let acc2 = sp_extends_add(acc, e.blocks);
            match assoc_get(tpls, e.parent_path) {
                Option::None => Result::Err(missing_template_text(e.parent_path)),
                Option::Some(src) => match sp_template(src) {
                    Result::Err(pe) => Result::Err(parse_error_text(pe)),
                    Result::Ok(t2) => sp_resolve_loop(tpls, t2, acc2, (depth - 1) as nat),
                },
            }
        },
    }
}

/// The output of one whole engine run on a root path.
pub open spec fn sp_engine(
    tpls: Seq<(Seq<char>, Seq<char>)>,
    path: Seq<char>,
    context: crate::value::ValueV,
    depth: nat,
) -> Seq<char> {
    match assoc_get(tpls, path) {
        Option::None => missing_template_text(path),
        Option::Some(src) => match sp_template(src) {
            Result::Err(e) => parse_error_text(e),
            Result::Ok(tv) => match sp_resolve_loop(tpls, tv, Seq::empty(), depth) {
                Result::Err(msg) => msg,
                Result::Ok((m, acc)) => {
                    let m2 = sp_apply(m, acc);
                    let env = EnvV { context, scopes: Seq::empty() };
                    let (out, err) = sp_render_nodes(m2.children, env, tpls, depth);
                    match err {
                        Option::None => out,
                        Option::Some(e) => render_error_text(e),
                    }
                },
            },
        },
    }
}

/// The inline report for a missing template, as an owned string.
fn missing_template_message(path: &str) -> (r: String)
    ensures
        r@ == missing_template_text(path@),
{
    let mut s = String::new();
    s.append("missing template: ");
    s.append(path);
    assert(s@ =~= missing_template_text(path@));
    s
}

/// Walk the extends chain, equal to [`sp_resolve_loop`].
fn resolve_from(
    tpls: &Vec<(String, String)>,
    t: Template,
    acc: Extends,
    budget: u64,
) -> (r: Result<(Module, Extends), String>)
    ensures
        match r {
            Result::Ok((m, acc2)) => sp_resolve_loop(
                tpls_v(tpls@),
                template_v(t),
                extends_v(acc).blocks,
                budget as nat,
            ) == Result::Ok::<(ModuleV, Seq<(Seq<char>, BlockV)>), Seq<char>>(
                (module_v(m), extends_v(acc2).blocks),
            ),
            Result::Err(msg) => sp_resolve_loop(
                tpls_v(tpls@),
                template_v(t),
                extends_v(acc).blocks,
                budget as nat,
            ) == Result::Err::<(ModuleV, Seq<(Seq<char>, BlockV)>), Seq<char>>(msg@),
        },
    decreases budget,
{
    match t {
        Template::Module(m) => Result::Ok((m, acc)),
        Template::Extends(e) => {
            if budget == 0 {
                Result::Err("DEPTH LIMIT EXCEEDED".to_owned())
            } else {
                let acc2 = acc.add(e);
                match lookup_template(tpls, &acc2.parent_path) {
                    Option::None => Result::Err(missing_template_message(acc2.parent_path.as_str())),
                    Option::Some(src) => match parse(src.as_str()) {
                        Result::Err(pe) => Result::Err(pe.message()),
                        Result::Ok(t2) => resolve_from(tpls, t2, acc2, budget - 1),
                    },
                }
            }
        },
    }
}

/// Render the template at `path` against `context`: parse it, resolve
/// its inheritance, and render, with `depth` capping both the extends
/// chain and nested embeds. Equal to [`sp_engine`]; every failure is
/// reported as the returned text.
pub fn render_template(
    tpls: &Vec<(String, String)>,
    path: &str,
    context: Value,
    depth: u64,
) -> (r: String)
    ensures
        r@ == sp_engine(tpls_v(tpls@), path@, value_v(context), depth as nat),
{
    let key = path.to_owned();
    let parsed: Template = match lookup_template(tpls, &key) {
        Option::None => {
            return missing_template_message(path);
        },
        Option::Some(src) => match parse(src.as_str()) {
            Result::Err(e) => {
                return e.message();
            },
            Result::Ok(t) => t,
        },
    };
    let acc0 = Extends { parent_path: String::new(), blocks: Vec::new() };
    assert(extends_v(acc0).blocks =~= Seq::<(Seq<char>, BlockV)>::empty());
    match resolve_from(tpls, parsed, acc0, depth) {
        Result::Err(msg) => msg,
        Result::Ok((m, acc)) => {
            let resolved = m.apply_extensions(acc);
            let mut env = Environment::new(context);
            let mut out = String::new();
            match resolved.render(&mut out, &mut env, tpls, depth) {
                Result::Ok(_) => {
                    assert(out@ =~= sp_engine(tpls_v(tpls@), path@, value_v(context), depth as nat));
                    out
                },
                Result::Err(e) => e.message(),
            }
        },
    }
}

} // verus!
