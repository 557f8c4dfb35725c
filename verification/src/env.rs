//! The render-time environment: a root data context and a stack of
//! scopes with lexically scoped, dotted-path variable lookup.
//!
//! Resolution walks scopes from innermost to outermost; within a scope,
//! engine-injected variables (a loop's current item) take priority over
//! the scope's host overlay; when no scope satisfies the lookup it falls
//! back to the root context.
use vstd::prelude::*;

use crate::table::{
    assoc_get, assoc_position, assoc_set, lemma_assoc_get_found, lemma_assoc_get_missing,
    lemma_assoc_set_found, lemma_assoc_set_missing,
};
use crate::value::{
    dict_v, find_dot, find_dot_from, get_path, lemma_dict_v, value_get, value_v, Value, ValueV,
};

verus! {

/// One stack frame of the environment, pushed per block activation.
pub struct Scope {
    /// Engine-assigned bindings, such as a loop's current item.
    pub injected: Vec<(String, Value)>,
    /// An optional host-supplied value consulted after the injected bindings.
    pub host_overlay: Option<Value>,
}

/// Ghost twin of [`Scope`].
pub struct ScopeV {
    pub injected: Seq<(Seq<char>, ValueV)>,
    pub host_overlay: Option<ValueV>,
}

/// A scope stack over a read-only root context, owned by one render pass.
pub struct Environment {
    pub context: Value,
    pub scopes: Vec<Scope>,
}

/// Ghost twin of [`Environment`].
pub struct EnvV {
    pub context: ValueV,
    pub scopes: Seq<ScopeV>,
}

/// View of a [`Scope`].
pub open spec fn scope_v(s: Scope) -> ScopeV {
    ScopeV {
        injected: dict_v(s.injected@),
        host_overlay: match s.host_overlay {
            Option::None => Option::None,
            Option::Some(v) => Option::Some(value_v(v)),
        },
    }
}

/// View of a scope stack, element by element.
pub open spec fn scopes_v(s: Seq<Scope>) -> Seq<ScopeV>
    decreases s,
{
    if s.len() == 0 {
        Seq::empty()
    } else {
        seq![scope_v(s[0])] + scopes_v(s.drop_first())
    }
}

/// `scopes_v` maps the view over the stack pointwise.
pub proof fn lemma_scopes_v(s: Seq<Scope>)
    ensures
        scopes_v(s).len() == s.len(),
        forall|i: int| 0 <= i < s.len() ==> scopes_v(s)[i] == scope_v(s[i]),
    decreases s,
{
    if s.len() > 0 {
        lemma_scopes_v(s.drop_first());
    }
}

/// View of an [`Environment`].
pub open spec fn env_v(e: Environment) -> EnvV {
    EnvV { context: value_v(e.context), scopes: scopes_v(e.scopes@) }
}

/// The scope with no bindings, pushed on entering a block.
pub open spec fn empty_scope_v() -> ScopeV {
    ScopeV { injected: Seq::empty(), host_overlay: Option::None }
}

/// Lookup within one scope: the path's head against the injected
/// bindings first, then the whole path against the host overlay.
pub open spec fn scope_lookup(sc: ScopeV, path: Seq<char>) -> Option<ValueV> {
    let dot = find_dot(path, 0);
    let key = path.subrange(0, dot);
    let rest = if dot < path.len() {
        path.subrange(dot + 1, path.len() as int)
    } else {
        Seq::empty()
    };
    match assoc_get(sc.injected, key) {
        Option::Some(v) => value_get(v, rest),
        Option::None => match sc.host_overlay {
            Option::Some(ov) => value_get(ov, path),
            Option::None => Option::None,
        },
    }
}

/// Lookup through a scope stack, innermost (last) first.
pub open spec fn scopes_lookup(scopes: Seq<ScopeV>, path: Seq<char>) -> Option<ValueV>
    decreases scopes.len(),
{
    if scopes.len() == 0 {
        Option::None
    } else {
        match scope_lookup(scopes.last(), path) {
            Option::Some(v) => Option::Some(v),
            Option::None => scopes_lookup(scopes.drop_last(), path),
        }
    }
}

/// Full resolution: the scope stack first, then the root context.
pub open spec fn env_lookup(env: EnvV, path: Seq<char>) -> Option<ValueV> {
    match scopes_lookup(env.scopes, path) {
        Option::Some(v) => Option::Some(v),
        Option::None => value_get(env.context, path),
    }
}

/// The textual form used for `{{ }}` rendering: the text of a resolved
/// scalar; anything else, or an unresolved path, is not found.
pub open spec fn env_get_text(env: EnvV, path: Seq<char>) -> Option<Seq<char>> {
    match env_lookup(env, path) {
        Option::Some(ValueV::Scalar(s)) => Option::Some(s),
        _ => Option::None,
    }
}

/// The environment with one more scope on top.
pub open spec fn env_push(env: EnvV, sc: ScopeV) -> EnvV {
    EnvV { context: env.context, scopes: env.scopes.push(sc) }
}

/// The environment with its top scope removed.
pub open spec fn env_pop(env: EnvV) -> EnvV {
    EnvV { context: env.context, scopes: env.scopes.drop_last() }
}

/// The environment with `name` bound to `v` in its top scope.
pub open spec fn env_set(env: EnvV, name: Seq<char>, v: ValueV) -> EnvV {
    if env.scopes.len() == 0 {
        env
    } else {
        let top = env.scopes.last();
        let top2 = ScopeV { injected: assoc_set(top.injected, name, v), host_overlay: top.host_overlay };
        EnvV { context: env.context, scopes: env.scopes.update(env.scopes.len() - 1, top2) }
    }
}

/// Insert or replace a binding in place, as `assoc_set` does on its view.
fn dict_set(entries: &mut Vec<(String, Value)>, key: String, value: Value)
    ensures
        dict_v(final(entries)@) == assoc_set(dict_v(old(entries)@), key@, value_v(value)),
{
    proof {
        lemma_dict_v(old(entries)@);
    }
    let ghost keyv = key@;
    let ghost valv = value_v(value);
    match assoc_position(entries, &key) {
        Option::Some(i) => {
            proof {
                lemma_assoc_set_found(dict_v(old(entries)@), keyv, valv, i as int);
            }
            let ghost before = entries@;
            entries.remove(i);
            entries.insert(i, (key, value));
            proof {
                assert(entries@ =~= before.update(
                    i as int,
                    (entries@[i as int].0, entries@[i as int].1),
                ));
                lemma_dict_v(entries@);
                assert(dict_v(entries@) =~= dict_v(old(entries)@).update(i as int, (keyv, valv)));
            }
        },
        Option::None => {
            proof {
                lemma_assoc_set_missing(dict_v(old(entries)@), keyv, valv);
            }
            entries.push((key, value));
            proof {
                lemma_dict_v(entries@);
                assert(dict_v(entries@) =~= dict_v(old(entries)@).push((keyv, valv)));
            }
        },
    }
}

/// Lookup within one scope, equal to [`scope_lookup`].
fn scope_find<'a>(sc: &'a Scope, path: &str) -> (r: Option<&'a Value>)
    ensures
        match r {
            Option::Some(v) => scope_lookup(scope_v(*sc), path@) == Option::Some(value_v(*v)),
            Option::None => scope_lookup(scope_v(*sc), path@) is None,
        },
{
    let n = path.unicode_len();
    let dot = find_dot_from(path, 0);
    let key = path.substring_char(0, dot).to_owned();
    proof {
        lemma_dict_v(sc.injected@);
    }
    match assoc_position(&sc.injected, &key) {
        Option::Some(i) => {
            proof {
                lemma_assoc_get_found(dict_v(sc.injected@), key@, i as int);
            }
            let rest_start = if dot < n {
                dot + 1
            } else {
                n
            };
            let rest = path.substring_char(rest_start, n);
            assert(rest@ =~= (if dot < n as int {
                path@.subrange(dot + 1, n as int)
            } else {
                Seq::<char>::empty()
            }));
            get_path(&sc.injected[i].1, rest)
        },
        Option::None => {
            proof {
                lemma_assoc_get_missing(dict_v(sc.injected@), key@);
            }
            match &sc.host_overlay {
                Option::Some(ov) => get_path(ov, path),
                Option::None => Option::None,
            }
        },
    }
}

impl Scope {
    /// A scope with no bindings.
    pub fn new() -> (s: Scope)
        ensures
            scope_v(s) == empty_scope_v(),
    {
        let s = Scope { injected: Vec::new(), host_overlay: Option::None };
        assert(dict_v(s.injected@) =~= Seq::<(Seq<char>, ValueV)>::empty());
        s
    }
}

impl Environment {
    /// A fresh environment over the given root context, with no scopes.
    pub fn new(context: Value) -> (e: Environment)
        ensures
            env_v(e) == (EnvV { context: value_v(context), scopes: Seq::<ScopeV>::empty() }),
    {
        let e = Environment { context, scopes: Vec::new() };
        assert(scopes_v(e.scopes@) =~= Seq::<ScopeV>::empty());
        e
    }

    /// Push a scope on entering a block.
    pub fn push(&mut self, scope: Scope)
        ensures
            env_v(*final(self)) == env_push(env_v(*old(self)), scope_v(scope)),
    {
        let ghost sv = scope_v(scope);
        self.scopes.push(scope);
        proof {
            lemma_scopes_v(old(self).scopes@);
            lemma_scopes_v(self.scopes@);
            assert(scopes_v(self.scopes@) =~= scopes_v(old(self).scopes@).push(sv));
        }
    }

    /// Pop the top scope on leaving a block.
    pub fn pop(&mut self)
        requires
            old(self).scopes@.len() > 0,
        ensures
            env_v(*final(self)) == env_pop(env_v(*old(self))),
    {
        self.scopes.pop();
        proof {
            lemma_scopes_v(old(self).scopes@);
            lemma_scopes_v(self.scopes@);
            assert(scopes_v(self.scopes@) =~= scopes_v(old(self).scopes@).drop_last());
        }
    }

    /// Bind `name` to `value` in the top scope.
    pub fn set(&mut self, name: &str, value: Value)
        requires
            old(self).scopes@.len() > 0,
        ensures
            env_v(*final(self)) == env_set(env_v(*old(self)), name@, value_v(value)),
    {
        let ghost namev = name@;
        let ghost valv = value_v(value);
        let mut top = match self.scopes.pop() {
            Option::Some(s) => s,
            Option::None => {
                proof {
                    assert(false);
                }
                Scope { injected: Vec::new(), host_overlay: Option::None }
            },
        };
        let ghost topv = scope_v(top);
        dict_set(&mut top.injected, name.to_owned(), value);
        let ghost top2v = scope_v(top);
        self.scopes.push(top);
        proof {
            lemma_scopes_v(old(self).scopes@);
            lemma_scopes_v(self.scopes@);
            assert(top2v == ScopeV {
                injected: assoc_set(topv.injected, namev, valv),
                host_overlay: topv.host_overlay,
            });
            assert(scopes_v(old(self).scopes@).last() == topv);
            assert(scopes_v(self.scopes@) =~= scopes_v(old(self).scopes@).update(
                scopes_v(old(self).scopes@).len() - 1,
                top2v,
            ));
        }
    }

    /// Resolve a dotted path to a copy of its value, equal to [`env_lookup`].
    #[verifier::loop_isolation(false)]
    pub fn get_value(&self, path: &str) -> (r: Option<Value>)
        ensures
            match r {
                Option::Some(v) => env_lookup(env_v(*self), path@) == Option::Some(value_v(v)),
                Option::None => env_lookup(env_v(*self), path@) is None,
            },
    {
        proof {
            lemma_scopes_v(self.scopes@);
        }
        let ghost all = scopes_v(self.scopes@);
        let mut i: usize = self.scopes.len();
        assert(all.subrange(0, i as int) =~= all);
        while i > 0
            invariant
                0 <= i <= self.scopes@.len(),
                scopes_lookup(all, path@) == scopes_lookup(all.subrange(0, i as int), path@),
            decreases i,
        {
            let sc = &self.scopes[i - 1];
            let ghost pre = all.subrange(0, i as int);
            assert(pre.last() == scope_v(*sc));
            match scope_find(sc, path) {
                Option::Some(v) => {
                    return Option::Some(v.deep_copy());
                },
                Option::None => {
                    assert(pre.drop_last() =~= all.subrange(0, i - 1));
                    i -= 1;
                },
            }
        }
        assert(all.subrange(0, 0) =~= Seq::<ScopeV>::empty());
        match get_path(&self.context, path) {
            Option::Some(v) => Option::Some(v.deep_copy()),
            Option::None => Option::None,
        }
    }

    /// Resolve a dotted path to the text of a scalar, equal to
    /// [`env_get_text`]: a list, keyed value, null, or unresolved path
    /// is not found, never an error.
    pub fn get(&self, path: &str) -> (r: Option<String>)
        ensures
            match r {
                Option::Some(s) => env_get_text(env_v(*self), path@) == Option::Some(s@),
                Option::None => env_get_text(env_v(*self), path@) is None,
            },
    {
        match self.get_value(path) {
            Option::Some(Value::Scalar(s)) => Option::Some(s),
            _ => Option::None,
        }
    }
}

} // verus!
