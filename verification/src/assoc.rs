//! Entries under string keys, each key once, in the order in which the keys
//! were first put.

use vstd::prelude::*;
use crate::strings::str_eq;

verus! {

/// A value under its key.
#[derive(Debug, PartialEq, Eq)]
pub struct Entry<V> {
    pub key: String,
    pub value: V,
}

/// The entries as pairs of a key's text and a value.
pub open spec fn pairs<V>(entries: Seq<Entry<V>>) -> Seq<(Seq<char>, V)> {
    Seq::new(entries.len(), |i: int| (entries[i].key@, entries[i].value))
}

/// The place of the first pair under `key`; the number of pairs where there
/// is none.
pub open spec fn find<V>(entries: Seq<(Seq<char>, V)>, key: Seq<char>) -> int
    decreases entries.len(),
{
    if entries.len() == 0 {
        0
    } else if entries[0].0 == key {
        0
    } else {
        1 + find(entries.skip(1), key)
    }
}

/// The pairs after `value` was put under `key`: in the place of the pair that
/// was under that key, or behind all others.
pub open spec fn put<V>(entries: Seq<(Seq<char>, V)>, key: Seq<char>, value: V) -> Seq<
    (Seq<char>, V),
> {
    let at = find(entries, key);
    if at < entries.len() {
        entries.update(at, (key, value))
    } else {
        entries.push((key, value))
    }
}

/// The value under `key`, if there is one.
pub open spec fn get<V>(entries: Seq<(Seq<char>, V)>, key: Seq<char>) -> Option<V> {
    let at = find(entries, key);
    if at < entries.len() {
        Some(entries[at].1)
    } else {
        None
    }
}

/// No key occurs twice.
pub open spec fn distinct_keys<V>(entries: Seq<(Seq<char>, V)>) -> bool {
    forall|i: int, j: int|
        0 <= i < j < entries.len() ==> (#[trigger] entries[i]).0 != (#[trigger] entries[j]).0
}

/// Where `find` points, the key is found, and nowhere before.
pub proof fn lemma_find<V>(entries: Seq<(Seq<char>, V)>, key: Seq<char>)
    ensures
        0 <= find(entries, key) <= entries.len(),
        find(entries, key) < entries.len() ==> entries[find(entries, key)].0 == key,
        forall|i: int| 0 <= i < find(entries, key) ==> (#[trigger] entries[i]).0 != key,
    decreases entries.len(),
{
    if entries.len() > 0 && entries[0].0 != key {
        let rest = entries.skip(1);
        lemma_find(rest, key);
        assert forall|i: int| 0 <= i < find(entries, key) implies (#[trigger] entries[i]).0
            != key by {
            if i > 0 {
                assert(entries[i] == rest[i - 1]);
            }
        }
        if find(entries, key) < entries.len() {
            assert(entries[find(entries, key)] == rest[find(rest, key)]);
        }
    }
}

/// Putting a value keeps every key in one place only.
pub proof fn lemma_put_keeps_distinct<V>(entries: Seq<(Seq<char>, V)>, key: Seq<char>, value: V)
    requires
        distinct_keys(entries),
    ensures
        distinct_keys(put(entries, key, value)),
{
    lemma_find(entries, key);
    let after = put(entries, key, value);
    let at = find(entries, key);
    assert forall|i: int, j: int| 0 <= i < j < after.len() implies (#[trigger] after[i]).0 != (
    #[trigger] after[j]).0 by {
        if at < entries.len() {
            assert(after[i].0 == entries[i].0);
            assert(after[j].0 == entries[j].0);
        } else if j < entries.len() {
        } else {
            assert(after[i] == entries[i]);
        }
    }
}

/// What was put under a key is what is found under it.
pub proof fn lemma_get_after_put<V>(entries: Seq<(Seq<char>, V)>, key: Seq<char>, value: V)
    ensures
        get(put(entries, key, value), key) == Some(value),
{
    lemma_find(entries, key);
    let after = put(entries, key, value);
    let at = find(entries, key);
    lemma_find(after, key);
    assert(after[at].0 == key);
    if find(after, key) < at {
        assert(after[find(after, key)] == entries[find(after, key)]);
    }
    assert(find(after, key) == at);
}

/// The place of the first entry under `key`.
pub fn position<V>(entries: &Vec<Entry<V>>, key: &str) -> (r: usize)
    ensures
        r == find(pairs(entries@), key@),
        r <= entries@.len(),
{
    let ghost all = pairs(entries@);
    let mut i: usize = 0;
    assert(all.skip(0) =~= all);
    while i < entries.len()
        invariant
            i <= entries@.len(),
            all == pairs(entries@),
            find(all, key@) == i + find(all.skip(i as int), key@),
        decreases entries@.len() - i,
    {
        let ghost rest = all.skip(i as int);
        assert(rest[0] == all[i as int]);
        if str_eq(entries[i].key.as_str(), key) {
            return i;
        }
        assert(rest.skip(1) =~= all.skip(i + 1));
        i += 1;
    }
    i
}

/// Puts `value` under `key`.
pub fn upsert<V>(entries: &mut Vec<Entry<V>>, key: String, value: V)
    ensures
        pairs(final(entries)@) == put(pairs(old(entries)@), key@, value),
{
    let at = position(entries, key.as_str());
    if at < entries.len() {
        entries.set(at, Entry { key, value });
        assert(pairs(entries@) =~= put(pairs(old(entries)@), key@, value));
    } else {
        entries.push(Entry { key, value });
        assert(pairs(entries@) =~= put(pairs(old(entries)@), key@, value));
    }
}

/// The value under `key`, if there is one.
pub fn lookup<'a, V>(entries: &'a Vec<Entry<V>>, key: &str) -> (r: Option<&'a V>)
    ensures
        match r {
            Some(value) => get(pairs(entries@), key@) == Some(*value),
            None => get(pairs(entries@), key@) is None,
        },
{
    let at = position(entries, key);
    if at < entries.len() {
        Some(&entries[at].value)
    } else {
        None
    }
}

} // verus!
