//! The generic structured value used for variable data: a scalar, an
//! ordered list, or a keyed collection of values, with dotted-path lookup.
use vstd::prelude::*;

use crate::table::{
    assoc_get, assoc_position, lemma_assoc_get_found, lemma_assoc_get_missing,
};

verus! {

/// A structured data value supplied by the host, read-only during a render.
pub enum Value {
    /// No value.
    Null,
    /// A textual scalar.
    Scalar(String),
    /// An ordered sequence of values.
    List(Vec<Value>),
    /// A keyed collection; lookup finds the first entry with a key.
    Dict(Vec<(String, Value)>),
}

/// Ghost twin of [`Value`].
pub enum ValueV {
    Null,
    Scalar(Seq<char>),
    List(Seq<ValueV>),
    Dict(Seq<(Seq<char>, ValueV)>),
}

/// View of a [`Value`].
pub open spec fn value_v(v: Value) -> ValueV
    decreases v,
{
    match v {
        Value::Null => ValueV::Null,
        Value::Scalar(s) => ValueV::Scalar(s@),
        Value::List(items) => ValueV::List(values_v(items@)),
        Value::Dict(entries) => ValueV::Dict(dict_v(entries@)),
    }
}

/// View of a sequence of values, element by element.
pub open spec fn values_v(s: Seq<Value>) -> Seq<ValueV>
    decreases s,
{
    if s.len() == 0 {
        Seq::empty()
    } else {
        seq![value_v(s[0])] + values_v(s.drop_first())
    }
}

/// View of a keyed entry list, element by element.
pub open spec fn dict_v(s: Seq<(String, Value)>) -> Seq<(Seq<char>, ValueV)>
    decreases s,
{
    if s.len() == 0 {
        Seq::empty()
    } else {
        seq![(s[0].0@, value_v(s[0].1))] + dict_v(s.drop_first())
    }
}

/// `values_v` maps the view over the sequence pointwise.
pub proof fn lemma_values_v(s: Seq<Value>)
    ensures
        values_v(s).len() == s.len(),
        forall|i: int| 0 <= i < s.len() ==> values_v(s)[i] == value_v(s[i]),
    decreases s,
{
    if s.len() > 0 {
        lemma_values_v(s.drop_first());
    }
}

/// `dict_v` maps the view over the entries pointwise.
pub proof fn lemma_dict_v(s: Seq<(String, Value)>)
    ensures
        dict_v(s).len() == s.len(),
        forall|i: int| 0 <= i < s.len() ==> dict_v(s)[i] == (s[i].0@, value_v(s[i].1)),
    decreases s,
{
    if s.len() > 0 {
        lemma_dict_v(s.drop_first());
    }
}

/// Sequences whose elements agree under the view have the same view.
pub proof fn lemma_values_v_congruent(a: Seq<Value>, b: Seq<Value>)
    requires
        a.len() == b.len(),
        forall|j: int| 0 <= j < a.len() ==> value_v(a[j]) == value_v(b[j]),
    ensures
        values_v(a) == values_v(b),
    decreases a,
{
    if a.len() > 0 {
        assert(forall|j: int|
            0 <= j < a.drop_first().len() ==> value_v(a.drop_first()[j]) == value_v(
                b.drop_first()[j],
            ));
        lemma_values_v_congruent(a.drop_first(), b.drop_first());
    }
}

/// Entry lists whose keys and values agree under the view have the same view.
pub proof fn lemma_dict_v_congruent(a: Seq<(String, Value)>, b: Seq<(String, Value)>)
    requires
        a.len() == b.len(),
        forall|j: int|
            0 <= j < a.len() ==> a[j].0@ == b[j].0@ && value_v(a[j].1) == value_v(b[j].1),
    ensures
        dict_v(a) == dict_v(b),
    decreases a,
{
    if a.len() > 0 {
        assert(forall|j: int|
            0 <= j < a.drop_first().len() ==> a.drop_first()[j].0@ == b.drop_first()[j].0@
                && value_v(a.drop_first()[j].1) == value_v(b.drop_first()[j].1));
        lemma_dict_v_congruent(a.drop_first(), b.drop_first());
    }
}

/// First position of a dot at or after `i`, or the end of the path.
pub open spec fn find_dot(s: Seq<char>, i: int) -> int
    decreases s.len() - i,
{
    if i < 0 || i >= s.len() {
        s.len() as int
    } else if s[i] == '.' {
        i
    } else {
        find_dot(s, i + 1)
    }
}

/// Executable twin of [`find_dot`].
pub fn find_dot_from(s: &str, i: usize) -> (r: usize)
    requires
        i <= s@.len(),
    ensures
        r == find_dot(s@, i as int),
        i <= r <= s@.len(),
{
    let n = s.unicode_len();
    let mut j: usize = i;
    loop
        invariant
            i <= j <= n,
            n == s@.len(),
            find_dot(s@, i as int) == find_dot(s@, j as int),
        decreases n - j,
    {
        if j >= n {
            return j;
        }
        if s.get_char(j) == '.' {
            return j;
        }
        j += 1;
    }
}

/// Dotted-path lookup: split on the first dot, look the head up as a key
/// of a keyed value, recurse on the remainder; an empty path is the value
/// itself; anything else is not found. A missing intermediate key makes
/// the whole path unresolved, never an error.
pub open spec fn value_get(v: ValueV, path: Seq<char>) -> Option<ValueV>
    decreases path.len(),
{
    if path.len() == 0 {
        Option::Some(v)
    } else {
        let dot = find_dot(path, 0);
        let key = path.subrange(0, dot);
        let rest = if dot < path.len() {
            path.subrange(dot + 1, path.len() as int)
        } else {
            Seq::empty()
        };
        match v {
            ValueV::Dict(entries) => match assoc_get(entries, key) {
                Option::Some(sub) => if rest.len() < path.len() {
                    value_get(sub, rest)
                } else {
                    Option::None
                },
                Option::None => Option::None,
            },
            _ => Option::None,
        }
    }
}

/// The first dot of a path lies within it.
pub proof fn lemma_find_dot_bounds(s: Seq<char>, i: int)
    requires
        0 <= i <= s.len(),
    ensures
        i <= find_dot(s, i) <= s.len(),
    decreases s.len() - i,
{
    if i < s.len() && s[i] != '.' {
        lemma_find_dot_bounds(s, i + 1);
    }
}

impl Value {
    /// A structurally equal copy of the value.
    #[verifier::loop_isolation(false)]
    pub fn deep_copy(&self) -> (r: Value)
        ensures
            value_v(r) == value_v(*self),
        decreases *self,
    {
        match self {
            Value::Null => Value::Null,
            Value::Scalar(s) => Value::Scalar(s.clone()),
            Value::List(items) => {
                let mut out: Vec<Value> = Vec::new();
                let mut i: usize = 0;
                while i < items.len()
                    invariant
                        0 <= i <= items@.len(),
                        out@.len() == i,
                        forall|j: int| 0 <= j < i ==> value_v(out@[j]) == value_v(items@[j]),
                    decreases items@.len() - i,
                {
                    let c = items[i].deep_copy();
                    out.push(c);
                    i += 1;
                }
                proof {
                    lemma_values_v_congruent(out@, items@);
                }
                Value::List(out)
            },
            Value::Dict(entries) => {
                let mut out: Vec<(String, Value)> = Vec::new();
                let mut i: usize = 0;
                while i < entries.len()
                    invariant
                        0 <= i <= entries@.len(),
                        out@.len() == i,
                        forall|j: int|
                            0 <= j < i ==> out@[j].0@ == entries@[j].0@ && value_v(out@[j].1)
                                == value_v(entries@[j].1),
                    decreases entries@.len() - i,
                {
                    let k = entries[i].0.clone();
                    let c = entries[i].1.deep_copy();
                    out.push((k, c));
                    i += 1;
                }
                proof {
                    lemma_dict_v_congruent(out@, entries@);
                }
                Value::Dict(out)
            },
        }
    }
}

/// Executable dotted-path lookup, equal to [`value_get`].
pub fn get_path<'a>(v: &'a Value, path: &str) -> (r: Option<&'a Value>)
    ensures
        match r {
            Option::Some(sub) => value_get(value_v(*v), path@) == Option::Some(value_v(*sub)),
            Option::None => value_get(value_v(*v), path@) is None,
        },
    decreases path@.len(),
{
    let n = path.unicode_len();
    if n == 0 {
        return Option::Some(v);
    }
    let dot = find_dot_from(path, 0);
    match v {
        Value::Dict(entries) => {
            let key = path.substring_char(0, dot).to_owned();
            proof {
                lemma_dict_v(entries@);
            }
            match assoc_position(entries, &key) {
                Option::Some(i) => {
                    proof {
                        lemma_assoc_get_found(dict_v(entries@), key@, i as int);
                    }
                    let rest_start = if dot < n {
                        dot + 1
                    } else {
                        n
                    };
                    let rest = path.substring_char(rest_start, n);
                    assert(rest@ =~= (if dot < n {
                        path@.subrange(dot + 1, n as int)
                    } else {
                        Seq::<char>::empty()
                    }));
                    get_path(&entries[i].1, rest)
                },
                Option::None => {
                    proof {
                        lemma_assoc_get_missing(dict_v(entries@), key@);
                    }
                    Option::None
                },
            }
        },
        _ => Option::None,
    }
}

} // verus!
