//! String-keyed association tables: the spec-level operations used by
//! override tables, scopes and keyed values, and the executable search.
use vstd::prelude::*;

verus! {

/// Insert or replace the entry for `key`, keeping an existing entry's position.
pub open spec fn assoc_set<V>(entries: Seq<(Seq<char>, V)>, key: Seq<char>, value: V) -> Seq<
    (Seq<char>, V),
>
    decreases entries,
{
    if entries.len() == 0 {
        seq![(key, value)]
    } else if entries[0].0 == key {
        seq![(key, value)] + entries.drop_first()
    } else {
        seq![entries[0]] + assoc_set(entries.drop_first(), key, value)
    }
}

/// The value of the first entry for `key`, if any.
pub open spec fn assoc_get<V>(entries: Seq<(Seq<char>, V)>, key: Seq<char>) -> Option<V>
    decreases entries,
{
    if entries.len() == 0 {
        Option::None
    } else if entries[0].0 == key {
        Option::Some(entries[0].1)
    } else {
        assoc_get(entries.drop_first(), key)
    }
}

/// Remove the first entry for `key`, if present.
pub open spec fn assoc_remove<V>(entries: Seq<(Seq<char>, V)>, key: Seq<char>) -> Seq<
    (Seq<char>, V),
>
    decreases entries,
{
    if entries.len() == 0 {
        entries
    } else if entries[0].0 == key {
        entries.drop_first()
    } else {
        seq![entries[0]] + assoc_remove(entries.drop_first(), key)
    }
}

/// Where `key` first stands at index `i`, `assoc_set` updates that entry.
pub proof fn lemma_assoc_set_found<V>(entries: Seq<(Seq<char>, V)>, key: Seq<char>, value: V, i: int)
    requires
        0 <= i < entries.len(),
        entries[i].0 == key,
        forall|j: int| 0 <= j < i ==> entries[j].0 != key,
    ensures
        assoc_set(entries, key, value) =~= entries.update(i, (key, value)),
    decreases entries,
{
    if i == 0 {
        assert(assoc_set(entries, key, value) =~= entries.update(0, (key, value)));
    } else {
        assert(entries[0].0 != key);
        assert(entries.drop_first()[i - 1].0 == key);
        assert(forall|j: int| 0 <= j < i - 1 ==> entries.drop_first()[j].0 != key);
        lemma_assoc_set_found(entries.drop_first(), key, value, i - 1);
        assert(assoc_set(entries, key, value) =~= entries.update(i, (key, value)));
    }
}

/// Where `key` is absent, `assoc_set` appends a new entry.
pub proof fn lemma_assoc_set_missing<V>(entries: Seq<(Seq<char>, V)>, key: Seq<char>, value: V)
    requires
        forall|j: int| 0 <= j < entries.len() ==> entries[j].0 != key,
    ensures
        assoc_set(entries, key, value) =~= entries.push((key, value)),
    decreases entries,
{
    if entries.len() > 0 {
        assert(forall|j: int|
            0 <= j < entries.drop_first().len() ==> entries.drop_first()[j].0 != key);
        lemma_assoc_set_missing(entries.drop_first(), key, value);
        assert(assoc_set(entries, key, value) =~= entries.push((key, value)));
    }
}

/// Where `key` first stands at index `i`, `assoc_get` returns that entry.
pub proof fn lemma_assoc_get_found<V>(entries: Seq<(Seq<char>, V)>, key: Seq<char>, i: int)
    requires
        0 <= i < entries.len(),
        entries[i].0 == key,
        forall|j: int| 0 <= j < i ==> entries[j].0 != key,
    ensures
        assoc_get(entries, key) == Option::Some(entries[i].1),
    decreases entries,
{
    if i > 0 {
        assert(entries.drop_first()[i - 1].0 == key);
        assert(forall|j: int| 0 <= j < i - 1 ==> entries.drop_first()[j].0 != key);
        lemma_assoc_get_found(entries.drop_first(), key, i - 1);
    }
}

/// Where `key` is absent, `assoc_get` finds nothing.
pub proof fn lemma_assoc_get_missing<V>(entries: Seq<(Seq<char>, V)>, key: Seq<char>)
    requires
        forall|j: int| 0 <= j < entries.len() ==> entries[j].0 != key,
    ensures
        assoc_get(entries, key) is None,
    decreases entries,
{
    if entries.len() > 0 {
        assert(forall|j: int|
            0 <= j < entries.drop_first().len() ==> entries.drop_first()[j].0 != key);
        lemma_assoc_get_missing(entries.drop_first(), key);
    }
}

/// Where `key` first stands at index `i`, `assoc_remove` deletes that entry.
pub proof fn lemma_assoc_remove_found<V>(entries: Seq<(Seq<char>, V)>, key: Seq<char>, i: int)
    requires
        0 <= i < entries.len(),
        entries[i].0 == key,
        forall|j: int| 0 <= j < i ==> entries[j].0 != key,
    ensures
        assoc_remove(entries, key) =~= entries.remove(i),
    decreases entries,
{
    if i == 0 {
        assert(assoc_remove(entries, key) =~= entries.remove(0));
    } else {
        assert(entries[0].0 != key);
        assert(entries.drop_first()[i - 1].0 == key);
        assert(forall|j: int| 0 <= j < i - 1 ==> entries.drop_first()[j].0 != key);
        lemma_assoc_remove_found(entries.drop_first(), key, i - 1);
        assert(assoc_remove(entries, key) =~= entries.remove(i));
    }
}

/// Index of the first entry whose key's text equals `key`, if any.
pub fn assoc_position<V>(entries: &Vec<(String, V)>, key: &String) -> (r: Option<usize>)
    ensures
        match r {
            Option::Some(i) => i < entries@.len() && entries@[i as int].0@ == key@ && forall|j: int|
                0 <= j < i ==> entries@[j].0@ != key@,
            Option::None => forall|j: int| 0 <= j < entries@.len() ==> entries@[j].0@ != key@,
        },
{
    let mut i: usize = 0;
    while i < entries.len()
        invariant
            0 <= i <= entries@.len(),
            forall|j: int| 0 <= j < i ==> entries@[j].0@ != key@,
        decreases entries@.len() - i,
    {
        if entries[i].0 == *key {
            return Option::Some(i);
        }
        i += 1;
    }
    Option::None
}

} // verus!
