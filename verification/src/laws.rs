//! Laws of the engine stated and proved once for all inputs: the
//! identity of tag-free text, the round trip of a variable against a
//! scalar, and the determinism that makes repeated renders identical.
use vstd::prelude::*;

use crate::ast::{ContentV, ModuleV, RenderError, TemplateV};
use crate::env::{env_lookup, scopes_lookup, EnvV};
use crate::parse::{extends_parse, sp_content, sp_nodes, sp_template};
use crate::render::{sp_render_content, sp_render_nodes};
use crate::text::{tag_opens, text_run_end};
use crate::value::{value_get, ValueV};

verus! {

/// A text run over delimiter-free input reaches the end of the input.
proof fn lemma_text_run_all(s: Seq<char>, i: int)
    requires
        0 <= i <= s.len(),
        forall|j: int| !tag_opens(s, j),
    ensures
        text_run_end(s, i) == s.len(),
    decreases s.len() - i,
{
    if i < s.len() {
        lemma_text_run_all(s, i + 1);
    }
}

/// Identity law, parsing half: any non-empty text in which no `{{` or
/// `{%` delimiter opens parses to a module holding a single `Text` node
/// equal to the whole input.
pub proof fn lemma_plain_text_parses(s: Seq<char>)
    requires
        s.len() > 0,
        forall|j: int| !tag_opens(s, j),
    ensures
        sp_template(s) == Result::Ok::<TemplateV, crate::ast::ParseError>(
            TemplateV::Module(ModuleV { children: seq![ContentV::Text(s)] }),
        ),
{
    reveal_strlit("{%");
    reveal_strlit("{{");
    assert(!crate::text::starts_at(s, 0, "{%"@)) by {
        if crate::text::starts_at(s, 0, "{%"@) {
            assert(s[0int + 0] == "{%"@[0]);
            assert(s[0int + 1] == "{%"@[1]);
            assert(tag_opens(s, 0));
        }
    }
    assert(extends_parse(s) is None);
    assert(!crate::text::starts_at(s, 0, "{{"@)) by {
        if crate::text::starts_at(s, 0, "{{"@) {
            assert(s[0int + 0] == "{{"@[0]);
            assert(s[0int + 1] == "{{"@[1]);
            assert(tag_opens(s, 0));
        }
    }
    lemma_text_run_all(s, 0);
    assert(s.subrange(0, s.len() as int) =~= s);
    assert(sp_content(s, 0) == Result::Ok::<(ContentV, int), crate::ast::ParseError>(
        (ContentV::Text(s), s.len() as int),
    ));
    assert(sp_nodes(s, s.len() as int, Option::None) == Result::Ok::<
        (Seq<ContentV>, int),
        crate::ast::ParseError,
    >((Seq::empty(), s.len() as int)));
    assert(seq![ContentV::Text(s)] + Seq::<ContentV>::empty() =~= seq![ContentV::Text(s)]);
    assert(sp_nodes(s, 0, Option::None) == Result::Ok::<
        (Seq<ContentV>, int),
        crate::ast::ParseError,
    >((seq![ContentV::Text(s)], s.len() as int)));
}

/// Identity law, rendering half: a single `Text` node renders exactly
/// its text, in any environment, with no error.
pub proof fn lemma_plain_text_renders(
    s: Seq<char>,
    env: EnvV,
    tpls: Seq<(Seq<char>, Seq<char>)>,
    fuel: nat,
)
    ensures
        sp_render_nodes(seq![ContentV::Text(s)], env, tpls, fuel) == (s, Option::<
            RenderError,
        >::None),
{
    let cs = seq![ContentV::Text(s)];
    assert(cs[0] == ContentV::Text(s));
    assert(cs.drop_first() =~= Seq::<ContentV>::empty());
    assert(sp_render_content(cs[0], env, tpls, fuel) == (s, Option::<RenderError>::None));
    assert(sp_render_nodes(cs.drop_first(), env, tpls, fuel) == (
        Seq::<char>::empty(),
        Option::<RenderError>::None,
    ));
    assert(s + Seq::<char>::empty() =~= s);
    assert(sp_render_nodes(cs, env, tpls, fuel).0 == s);
}

/// Identity law, end to end: when the template at `path` is non-empty
/// text in which no `{{` or `{%` delimiter opens, the whole engine run
/// reproduces that text exactly, whatever the context and depth cap.
pub proof fn lemma_plain_text_identity(
    tpls: Seq<(Seq<char>, Seq<char>)>,
    path: Seq<char>,
    s: Seq<char>,
    context: crate::value::ValueV,
    depth: nat,
)
    requires
        crate::table::assoc_get(tpls, path) == Option::Some(s),
        s.len() > 0,
        forall|j: int| !tag_opens(s, j),
    ensures
        crate::engine::sp_engine(tpls, path, context, depth) == s,
{
    lemma_plain_text_parses(s);
    let m = ModuleV { children: seq![ContentV::Text(s)] };
    assert(crate::engine::sp_resolve_loop(tpls, TemplateV::Module(m), Seq::empty(), depth)
        == Result::Ok::<(ModuleV, Seq<(Seq<char>, crate::ast::BlockV)>), Seq<char>>(
        (m, Seq::empty()),
    ));
    let cs = m.children;
    assert(cs[0] == ContentV::Text(s));
    assert(cs.drop_first() =~= Seq::<ContentV>::empty());
    assert(crate::resolve::sp_apply_children(Seq::<ContentV>::empty(), Seq::empty()).0
        =~= Seq::<ContentV>::empty());
    assert(crate::resolve::sp_apply_children(cs, Seq::empty()).0 =~= cs);
    assert(crate::resolve::sp_apply(m, Seq::empty()).children == cs);
    let env = EnvV { context, scopes: Seq::empty() };
    lemma_plain_text_renders(s, env, tpls, depth);
}

/// Round trip of a variable: with no surrounding scopes, rendering
/// `{{ path }}` yields exactly the text of the scalar the path resolves
/// to in the context; a path that is unresolved, or resolves to
/// anything but a scalar, yields empty text — never an error.
pub proof fn lemma_var_round_trip(
    p: Seq<char>,
    env: EnvV,
    tpls: Seq<(Seq<char>, Seq<char>)>,
    fuel: nat,
)
    requires
        env.scopes.len() == 0,
    ensures
        ({
            let (out, err) = sp_render_content(ContentV::Var(p), env, tpls, fuel);
            &&& err is None
            &&& out == match value_get(env.context, p) {
                Option::Some(ValueV::Scalar(v)) => v,
                _ => Seq::<char>::empty(),
            }
        }),
{
    assert(scopes_lookup(env.scopes, p) is None);
    assert(env_lookup(env, p) == value_get(env.context, p));
}

/// Idempotence: rendering is a function of the resolved module and the
/// environment alone, and rendering restores the environment it was
/// given (the `render` contracts say so); hence a second render of the
/// same module, starting from the environment the first one left
/// behind, produces identical output and the same error, if any.
pub proof fn lemma_render_idempotent(
    m: ModuleV,
    env_first: EnvV,
    env_second: EnvV,
    tpls: Seq<(Seq<char>, Seq<char>)>,
    fuel: nat,
)
    requires
        env_second == env_first,
    ensures
        sp_render_nodes(m.children, env_second, tpls, fuel) == sp_render_nodes(
            m.children,
            env_first,
            tpls,
            fuel,
        ),
{
}

} // verus!
