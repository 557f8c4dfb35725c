//! Rendering: walking a resolved tree against an environment and a
//! template list used by embed tags, producing output text.
//!
//! Every fatal condition becomes visible text: an unresolved variable
//! renders empty, an unbound parent marker renders a sentinel, a failed
//! embed reports inline, and only a non-iterable loop target aborts the
//! render with an error that the caller turns into message text.
use vstd::prelude::*;

use crate::ast::{
    block_v, content_v, contents_v, lemma_contents_v, module_v, parse_error_text, Block, BlockTag,
    BlockTagV, Content, ContentV, Module, RenderError, Template, TemplateV,
};
use crate::env::{
    empty_scope_v, env_lookup, env_push, env_set, env_v, env_get_text, EnvV, Environment, Scope,
};
use crate::parse::{parse, sp_template};
use crate::table::{
    assoc_get, assoc_position, lemma_assoc_get_found, lemma_assoc_get_missing,
};
use crate::resolve::{block_size, content_size, contents_size};
use crate::value::{value_v, values_v, lemma_values_v, Value, ValueV};

verus! {

/// View of a template list, path and source text of each entry.
pub open spec fn tpls_v(s: Seq<(String, String)>) -> Seq<(Seq<char>, Seq<char>)>
    decreases s,
{
    if s.len() == 0 {
        Seq::empty()
    } else {
        seq![(s[0].0@, s[0].1@)] + tpls_v(s.drop_first())
    }
}

/// `tpls_v` maps the view over the list pointwise.
pub proof fn lemma_tpls_v(s: Seq<(String, String)>)
    ensures
        tpls_v(s).len() == s.len(),
        forall|i: int| 0 <= i < s.len() ==> tpls_v(s)[i] == (s[i].0@, s[i].1@),
    decreases s,
{
    if s.len() > 0 {
        lemma_tpls_v(s.drop_first());
    }
}

/// The sentinel rendered by a parent marker that no ancestor bound.
pub open spec fn missing_parent_lit() -> Seq<char> {
    "MISSING PARENT BLOCK"@
}

/// The text rendered by an embed tag once the depth cap is spent.
pub open spec fn depth_limit_lit() -> Seq<char> {
    "DEPTH LIMIT EXCEEDED"@
}

/// The placeholder rendered when an embedded template turns out to extend another.
pub open spec fn embed_extends_lit() -> Seq<char> {
    "EMBEDDED EXTENDS NOT SUPPORTED"@
}

/// The inline report for an embed path the loader does not know.
pub open spec fn missing_template_text(path: Seq<char>) -> Seq<char> {
    "missing template: "@ + path
}

/// Prefix already-produced output onto a render continuation.
pub open spec fn prepend_out(a: Seq<char>, r: (Seq<char>, Option<RenderError>)) -> (
    Seq<char>,
    Option<RenderError>,
) {
    (a + r.0, r.1)
}

/// Render one content node: the text it produces and, if a loop target
/// failed to resolve to a list somewhere inside, the error; on error
/// the text is what was produced before the abort.
pub open spec fn sp_render_content(
    c: ContentV,
    env: EnvV,
    tpls: Seq<(Seq<char>, Seq<char>)>,
    fuel: nat,
) -> (Seq<char>, Option<RenderError>)
    decreases fuel, c, 0int,
{
    match c {
        ContentV::Text(s) => (s, Option::None),
        ContentV::Var(p) => (
            match env_get_text(env, p) {
                Option::Some(s) => s,
                Option::None => Seq::empty(),
            },
            Option::None,
        ),
        ContentV::ParentMarker(p) => match p {
            Option::None => (missing_parent_lit(), Option::None),
            Option::Some(b) => sp_render_block(*b, env, tpls, fuel),
        },
        ContentV::Block(b) => sp_render_block(*b, env, tpls, fuel),
    }
}

/// Render a block: push a scope, dispatch on the tag, pop the scope.
pub open spec fn sp_render_block(
    b: crate::ast::BlockV,
    env: EnvV,
    tpls: Seq<(Seq<char>, Seq<char>)>,
    fuel: nat,
) -> (Seq<char>, Option<RenderError>)
    decreases fuel, b, 0int,
{
    let env1 = env_push(env, empty_scope_v());
    match b.tag {
        BlockTagV::Named(_) => sp_render_nodes(b.children, env1, tpls, fuel),
        BlockTagV::Loop(var, coll) => match env_lookup(env1, coll) {
            Option::Some(ValueV::List(items)) => sp_render_loop(
                items,
                var,
                b.children,
                env1,
                tpls,
                fuel,
            ),
            _ => (Seq::empty(), Option::Some(RenderError::NotIterable)),
        },
        BlockTagV::Embed(path) => if fuel == 0 {
            (depth_limit_lit(), Option::None)
        } else {
            match assoc_get(tpls, path) {
                Option::None => (missing_template_text(path), Option::None),
                Option::Some(src) => match sp_template(src) {
                    Result::Ok(TemplateV::Module(m)) => sp_render_nodes(
                        m.children,
                        env1,
                        tpls,
                        (fuel - 1) as nat,
                    ),
                    Result::Ok(TemplateV::Extends(_)) => (embed_extends_lit(), Option::None),
                    Result::Err(e) => (parse_error_text(e), Option::None),
                },
            }
        },
        BlockTagV::Unrecognized => (Seq::empty(), Option::None),
    }
}

/// Render a run of nodes in order, stopping at the first error.
pub open spec fn sp_render_nodes(
    cs: Seq<ContentV>,
    env: EnvV,
    tpls: Seq<(Seq<char>, Seq<char>)>,
    fuel: nat,
) -> (Seq<char>, Option<RenderError>)
    decreases fuel, cs, 0int,
{
    if cs.len() == 0 {
        (Seq::empty(), Option::None)
    } else {
        let (o1, e1) = sp_render_content(cs[0], env, tpls, fuel);
        if e1 is Some {
            (o1, e1)
        } else {
            let (o2, e2) = sp_render_nodes(cs.drop_first(), env, tpls, fuel);
            (o1 + o2, e2)
        }
    }
}

/// Render a loop body once per item in order, binding the item name in
/// the loop's single scope before each pass; the binding is overwritten,
/// not freshly scoped, so it retains the last item until the scope pops.
pub open spec fn sp_render_loop(
    items: Seq<ValueV>,
    var: Seq<char>,
    cs: Seq<ContentV>,
    env: EnvV,
    tpls: Seq<(Seq<char>, Seq<char>)>,
    fuel: nat,
) -> (Seq<char>, Option<RenderError>)
    decreases fuel, cs, 1int + items.len(),
{
    if items.len() == 0 {
        (Seq::empty(), Option::None)
    } else {
        let env2 = env_set(env, var, items[0]);
        let (o1, e1) = sp_render_nodes(cs, env2, tpls, fuel);
        if e1 is Some {
            (o1, e1)
        } else {
            let (o2, e2) = sp_render_loop(items.drop_first(), var, cs, env2, tpls, fuel);
            (o1 + o2, e2)
        }
    }
}

/// Find a template's source text by path, equal to `assoc_get` on the view.
pub(crate) fn lookup_template<'a>(tpls: &'a Vec<(String, String)>, path: &String) -> (r: Option<
    &'a String,
>)
    ensures
        match r {
            Option::Some(src) => assoc_get(tpls_v(tpls@), path@) == Option::Some(src@),
            Option::None => assoc_get(tpls_v(tpls@), path@) is None,
        },
{
    proof {
        lemma_tpls_v(tpls@);
    }
    match assoc_position(tpls, path) {
        Option::Some(i) => {
            proof {
                lemma_assoc_get_found(tpls_v(tpls@), path@, i as int);
            }
            Option::Some(&tpls[i].1)
        },
        Option::None => {
            proof {
                lemma_assoc_get_missing(tpls_v(tpls@), path@);
            }
            Option::None
        },
    }
}

/// An element's size never exceeds its sequence's size.
proof fn lemma_contents_size_elem(s: Seq<Content>, i: int)
    requires
        0 <= i < s.len(),
    ensures
        content_size(s[i]) <= contents_size(s),
    decreases s,
{
    if i > 0 {
        lemma_contents_size_elem(s.drop_first(), i - 1);
    }
}

/// Render a run of nodes in order, equal to [`sp_render_nodes`]; the
/// environment is returned as it was.
#[verifier::loop_isolation(false)]
pub fn render_nodes(
    nodes: &Vec<Content>,
    buf: &mut String,
    env: &mut Environment,
    tpls: &Vec<(String, String)>,
    fuel: u64,
) -> (r: Result<(), RenderError>)
    ensures
        ({
            let (out, err) = sp_render_nodes(
                contents_v(nodes@),
                env_v(*old(env)),
                tpls_v(tpls@),
                fuel as nat,
            );
            &&& final(buf)@ == old(buf)@ + out
            &&& env_v(*final(env)) == env_v(*old(env))
            &&& match err {
                Option::None => r is Ok,
                Option::Some(e) => r == Result::<(), RenderError>::Err(e),
            }
        }),
    decreases fuel, contents_size(nodes@), 1int,
{
    let ghost env0 = env_v(*env);
    let ghost buf0 = buf@;
    let ghost all = contents_v(nodes@);
    let ghost total = sp_render_nodes(all, env0, tpls_v(tpls@), fuel as nat);
    proof {
        lemma_contents_v(nodes@);
    }
    let mut i: usize = 0;
    assert(all.skip(0) =~= all);
    assert(buf@.skip(buf0.len() as int) =~= Seq::<char>::empty());
    while i < nodes.len()
        invariant
            0 <= i <= nodes@.len(),
            env_v(*env) == env0,
            buf0.len() <= buf@.len(),
            buf@.subrange(0, buf0.len() as int) == buf0,
            total == prepend_out(
                buf@.skip(buf0.len() as int),
                sp_render_nodes(all.skip(i as int), env0, tpls_v(tpls@), fuel as nat),
            ),
        decreases nodes@.len() - i,
    {
        proof {
            lemma_contents_size_elem(nodes@, i as int);
            assert(all.skip(i as int)[0] == content_v(nodes@[i as int]));
            assert(all.skip(i as int).drop_first() =~= all.skip(i as int + 1));
        }
        let ghost produced = buf@.skip(buf0.len() as int);
        let child = &nodes[i];
        match child.render(buf, env, tpls, fuel) {
            Result::Ok(_) => {
                proof {
                    let (o1, e1) = sp_render_content(
                        content_v(*child),
                        env0,
                        tpls_v(tpls@),
                        fuel as nat,
                    );
                    assert(buf@ =~= buf0 + (produced + o1));
                    assert(buf@.skip(buf0.len() as int) =~= produced + o1);
                    assert(buf@.subrange(0, buf0.len() as int) =~= buf0);
                    let tail = sp_render_nodes(
                        all.skip(i as int + 1),
                        env0,
                        tpls_v(tpls@),
                        fuel as nat,
                    );
                    assert(produced + (o1 + tail.0) =~= (produced + o1) + tail.0);
                }
                i += 1;
            },
            Result::Err(e) => {
                proof {
                    let (o1, e1) = sp_render_content(
                        content_v(*child),
                        env0,
                        tpls_v(tpls@),
                        fuel as nat,
                    );
                    assert(buf@ =~= buf0 + (produced + o1));
                }
                return Result::Err(e);
            },
        }
    }
    assert(all.skip(nodes@.len() as int) =~= Seq::<ContentV>::empty());
    assert(buf@ =~= buf0 + buf@.skip(buf0.len() as int));
    Result::Ok(())
}

/// Render the loop body once per item, equal to [`sp_render_loop`]; the
/// environment keeps its context, depth, and outer scopes, while the
/// top scope carries the loop binding.
#[verifier::loop_isolation(false)]
fn render_loop(
    children: &Vec<Content>,
    var: &String,
    items: &Vec<Value>,
    buf: &mut String,
    env: &mut Environment,
    tpls: &Vec<(String, String)>,
    fuel: u64,
) -> (r: Result<(), RenderError>)
    requires
        env_v(*old(env)).scopes.len() > 0,
    ensures
        ({
            let (out, err) = sp_render_loop(
                values_v(items@),
                var@,
                contents_v(children@),
                env_v(*old(env)),
                tpls_v(tpls@),
                fuel as nat,
            );
            &&& final(buf)@ == old(buf)@ + out
            &&& env_v(*final(env)).context == env_v(*old(env)).context
            &&& env_v(*final(env)).scopes.len() == env_v(*old(env)).scopes.len()
            &&& env_v(*final(env)).scopes.drop_last() == env_v(*old(env)).scopes.drop_last()
            &&& match err {
                Option::None => r is Ok,
                Option::Some(e) => r == Result::<(), RenderError>::Err(e),
            }
        }),
    decreases fuel, contents_size(children@), 2int,
{
    let ghost env0 = env_v(*env);
    let ghost buf0 = buf@;
    let ghost itemsv = values_v(items@);
    let ghost csv = contents_v(children@);
    let ghost total = sp_render_loop(itemsv, var@, csv, env0, tpls_v(tpls@), fuel as nat);
    proof {
        lemma_values_v(items@);
    }
    let mut k: usize = 0;
    assert(itemsv.skip(0) =~= itemsv);
    assert(buf@.skip(buf0.len() as int) =~= Seq::<char>::empty());
    while k < items.len()
        invariant
            0 <= k <= items@.len(),
            env_v(*env).context == env0.context,
            env_v(*env).scopes.len() == env0.scopes.len(),
            env_v(*env).scopes.drop_last() == env0.scopes.drop_last(),
            buf0.len() <= buf@.len(),
            buf@.subrange(0, buf0.len() as int) == buf0,
            total == prepend_out(
                buf@.skip(buf0.len() as int),
                sp_render_loop(
                    itemsv.skip(k as int),
                    var@,
                    csv,
                    env_v(*env),
                    tpls_v(tpls@),
                    fuel as nat,
                ),
            ),
        decreases items@.len() - k,
    {
        proof {
            assert(itemsv.skip(k as int)[0] == value_v(items@[k as int]));
            assert(itemsv.skip(k as int).drop_first() =~= itemsv.skip(k as int + 1));
        }
        let ghost env_before = env_v(*env);
        let ghost produced = buf@.skip(buf0.len() as int);
        let item = items[k].deep_copy();
        env.set(var.as_str(), item);
        let ghost env2 = env_v(*env);
        assert(env2 == env_set(env_before, var@, value_v(items@[k as int])));
        match render_nodes(children, buf, env, tpls, fuel) {
            Result::Ok(_) => {
                proof {
                    let (o1, e1) = sp_render_nodes(csv, env2, tpls_v(tpls@), fuel as nat);
                    assert(buf@ =~= buf0 + (produced + o1));
                    assert(buf@.skip(buf0.len() as int) =~= produced + o1);
                    assert(buf@.subrange(0, buf0.len() as int) =~= buf0);
                    let tail = sp_render_loop(
                        itemsv.skip(k as int + 1),
                        var@,
                        csv,
                        env2,
                        tpls_v(tpls@),
                        fuel as nat,
                    );
                    assert(produced + (o1 + tail.0) =~= (produced + o1) + tail.0);
                }
                k += 1;
            },
            Result::Err(e) => {
                proof {
                    let (o1, e1) = sp_render_nodes(csv, env2, tpls_v(tpls@), fuel as nat);
                    assert(buf@ =~= buf0 + (produced + o1));
                }
                return Result::Err(e);
            },
        }
    }
    assert(itemsv.skip(items@.len() as int) =~= Seq::<ValueV>::empty());
    assert(buf@ =~= buf0 + buf@.skip(buf0.len() as int));
    Result::Ok(())
}

impl Block {
    /// Render this block: push a fresh scope, dispatch on the tag, pop
    /// the scope on every exit path; equal to [`sp_render_block`].
    pub fn render(
        &self,
        buf: &mut String,
        env: &mut Environment,
        tpls: &Vec<(String, String)>,
        fuel: u64,
    ) -> (r: Result<(), RenderError>)
        ensures
            ({
                let (out, err) = sp_render_block(
                    block_v(*self),
                    env_v(*old(env)),
                    tpls_v(tpls@),
                    fuel as nat,
                );
                &&& final(buf)@ == old(buf)@ + out
                &&& env_v(*final(env)) == env_v(*old(env))
                &&& match err {
                    Option::None => r is Ok,
                    Option::Some(e) => r == Result::<(), RenderError>::Err(e),
                }
            }),
        decreases fuel, block_size(*self), 0int,
    {
        let ghost env0 = env_v(*env);
        env.push(Scope::new());
        let ghost env1 = env_v(*env);
        assert(env1 == env_push(env0, empty_scope_v()));
        let r: Result<(), RenderError> = match &self.tag {
            BlockTag::Named(_) => render_nodes(&self.children, buf, env, tpls, fuel),
            BlockTag::Loop(var, coll) => {
                match env.get_value(coll.as_str()) {
                    Option::Some(collection) => match collection {
                        Value::List(items) => render_loop(
                            &self.children,
                            var,
                            &items,
                            buf,
                            env,
                            tpls,
                            fuel,
                        ),
                        _ => Result::Err(RenderError::NotIterable),
                    },
                    Option::None => Result::Err(RenderError::NotIterable),
                }
            },
            BlockTag::Embed(path) => {
                if fuel == 0 {
                    buf.append("DEPTH LIMIT EXCEEDED");
                    Result::Ok(())
                } else {
                    match lookup_template(tpls, path) {
                        Option::None => {
                            buf.append("missing template: ");
                            buf.append(path.as_str());
                            Result::Ok(())
                        },
                        Option::Some(src) => match parse(src.as_str()) {
                            Result::Ok(Template::Module(m)) => render_nodes(
                                &m.children,
                                buf,
                                env,
                                tpls,
                                fuel - 1,
                            ),
                            Result::Ok(Template::Extends(_)) => {
                                buf.append("EMBEDDED EXTENDS NOT SUPPORTED");
                                Result::Ok(())
                            },
                            Result::Err(e) => {
                                let msg = e.message();
                                buf.append(msg.as_str());
                                Result::Ok(())
                            },
                        },
                    }
                }
            },
            BlockTag::Unrecognized => Result::Ok(()),
        };
        assert(env_v(*env).context == env1.context);
        assert(env_v(*env).scopes.len() == env1.scopes.len());
        assert(env_v(*env).scopes.drop_last() == env1.scopes.drop_last());
        env.pop();
        proof {
            assert(env1.scopes.drop_last() =~= env0.scopes);
            assert(env_v(*env) == env0);
        }
        r
    }
}

impl Content {
    /// Render one content node, equal to [`sp_render_content`].
    pub fn render(
        &self,
        buf: &mut String,
        env: &mut Environment,
        tpls: &Vec<(String, String)>,
        fuel: u64,
    ) -> (r: Result<(), RenderError>)
        ensures
            ({
                let (out, err) = sp_render_content(
                    content_v(*self),
                    env_v(*old(env)),
                    tpls_v(tpls@),
                    fuel as nat,
                );
                &&& final(buf)@ == old(buf)@ + out
                &&& env_v(*final(env)) == env_v(*old(env))
                &&& match err {
                    Option::None => r is Ok,
                    Option::Some(e) => r == Result::<(), RenderError>::Err(e),
                }
            }),
        decreases fuel, content_size(*self), 0int,
    {
        match self {
            Content::Text(txt) => {
                buf.append(txt.as_str());
                Result::Ok(())
            },
            Content::Var(p) => {
                match env.get(p.as_str()) {
                    Option::Some(s) => {
                        buf.append(s.as_str());
                    },
                    Option::None => {
                        assert(buf@ =~= old(buf)@ + Seq::<char>::empty());
                    },
                }
                Result::Ok(())
            },
            Content::Block(b) => b.render(buf, env, tpls, fuel),
            Content::ParentMarker(p) => match p {
                Option::Some(b) => b.render(buf, env, tpls, fuel),
                Option::None => {
                    buf.append("MISSING PARENT BLOCK");
                    Result::Ok(())
                },
            },
        }
    }
}

impl Module {
    /// Render the module's children in order against the environment,
    /// equal to [`sp_render_nodes`] on its children.
    pub fn render(
        &self,
        buf: &mut String,
        env: &mut Environment,
        tpls: &Vec<(String, String)>,
        fuel: u64,
    ) -> (r: Result<(), RenderError>)
        ensures
            ({
                let (out, err) = sp_render_nodes(
                    module_v(*self).children,
                    env_v(*old(env)),
                    tpls_v(tpls@),
                    fuel as nat,
                );
                &&& final(buf)@ == old(buf)@ + out
                &&& env_v(*final(env)) == env_v(*old(env))
                &&& match err {
                    Option::None => r is Ok,
                    Option::Some(e) => r == Result::<(), RenderError>::Err(e),
                }
            }),
    {
        render_nodes(&self.children, buf, env, tpls, fuel)
    }
}

} // verus!
