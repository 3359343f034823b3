//! Keyed storage shared by the ledgers: a vector of `(key, value)` entries
//! with pairwise-distinct keys, looked up by string identifier.
use vstd::prelude::*;

verus! {

/// No two entries share a key.
pub open spec fn keys_distinct<V>(s: Seq<(String, V)>) -> bool {
    forall|i: int, j: int| 0 <= i < j < s.len() ==> s[i].0@ != s[j].0@
}

/// Some entry carries the key `k`.
pub open spec fn has_key<V>(s: Seq<(String, V)>, k: Seq<char>) -> bool {
    exists|i: int| 0 <= i < s.len() && s[i].0@ == k
}

/// The index of the entry carrying `k`; meaningful only when `has_key` holds
/// and the keys are distinct.
pub open spec fn key_index<V>(s: Seq<(String, V)>, k: Seq<char>) -> int {
    choose|i: int| 0 <= i < s.len() && s[i].0@ == k
}

/// The value stored under `k`, if any.
pub open spec fn value_of<V>(s: Seq<(String, V)>, k: Seq<char>) -> Option<V> {
    if has_key(s, k) {
        Some(s[key_index(s, k)].1)
    } else {
        None
    }
}

/// With distinct keys, an entry at index `i` is the one the lookup finds.
pub proof fn lemma_value_at<V>(s: Seq<(String, V)>, i: int, k: Seq<char>)
    requires
        keys_distinct(s),
        0 <= i < s.len(),
        s[i].0@ == k,
    ensures
        has_key(s, k),
        key_index(s, k) == i,
        value_of(s, k) == Some(s[i].1),
{
    assert(has_key(s, k));
    let j = key_index(s, k);
    assert(0 <= j < s.len() && s[j].0@ == k);
    if j < i {
        assert(s[j].0@ != s[i].0@);
    } else if i < j {
        assert(s[i].0@ != s[j].0@);
    }
}

/// Replacing the entry at `i` by one with the same key updates that key's
/// value and leaves every other key's value alone.
pub proof fn lemma_set_update<V>(s: Seq<(String, V)>, i: int, kv: (String, V))
    requires
        keys_distinct(s),
        0 <= i < s.len(),
        kv.0@ == s[i].0@,
    ensures
        keys_distinct(s.update(i, kv)),
        value_of(s.update(i, kv), kv.0@) == Some(kv.1),
        forall|k: Seq<char>| k != kv.0@ ==> value_of(s.update(i, kv), k) == value_of(s, k),
{
    let t = s.update(i, kv);
    assert(forall|j: int| 0 <= j < t.len() ==> t[j].0@ == s[j].0@);
    assert(keys_distinct(t));
    lemma_value_at(t, i, kv.0@);
    assert forall|k: Seq<char>| k != kv.0@ implies value_of(t, k) == value_of(s, k) by {
        if has_key(s, k) {
            let j = key_index(s, k);
            lemma_value_at(s, j, k);
            assert(j != i);
            assert(t[j].0@ == k && t[j].1 == s[j].1);
            lemma_value_at(t, j, k);
        } else {
            assert(!has_key(t, k)) by {
                if has_key(t, k) {
                    let j = key_index(t, k);
                    assert(0 <= j < t.len() && t[j].0@ == k);
                    assert(s[j].0@ == k);
                }
            }
        }
    }
}

/// Appending an entry under a fresh key binds that key and leaves every
/// other key's value alone.
pub proof fn lemma_set_push<V>(s: Seq<(String, V)>, kv: (String, V))
    requires
        keys_distinct(s),
        !has_key(s, kv.0@),
    ensures
        keys_distinct(s.push(kv)),
        value_of(s.push(kv), kv.0@) == Some(kv.1),
        forall|k: Seq<char>| k != kv.0@ ==> value_of(s.push(kv), k) == value_of(s, k),
{
    let t = s.push(kv);
    assert forall|i: int, j: int| 0 <= i < j < t.len() implies t[i].0@ != t[j].0@ by {
        if j < s.len() {
            assert(s[i].0@ != s[j].0@);
        } else {
            assert(t[j] == kv);
            assert(t[i] == s[i]);
            if s[i].0@ == kv.0@ {
                assert(has_key(s, kv.0@));
            }
        }
    }
    lemma_value_at(t, s.len() as int, kv.0@);
    assert forall|k: Seq<char>| k != kv.0@ implies value_of(t, k) == value_of(s, k) by {
        if has_key(s, k) {
            let j = key_index(s, k);
            lemma_value_at(s, j, k);
            assert(t[j].0@ == k && t[j].1 == s[j].1);
            lemma_value_at(t, j, k);
        } else {
            assert(!has_key(t, k)) by {
                if has_key(t, k) {
                    let j = key_index(t, k);
                    assert(0 <= j < t.len() && t[j].0@ == k);
                    assert(j < s.len());
                }
            }
        }
    }
}

/// The index of the entry carrying `key`, or `None` when no entry does.
pub fn find_index<V>(entries: &Vec<(String, V)>, key: &String) -> (r: Option<usize>)
    ensures
        match r {
            Some(i) => 0 <= i < entries@.len() && entries@[i as int].0@ == key@,
            None => !has_key(entries@, key@),
        },
{
    let mut i: usize = 0;
    while i < entries.len()
        invariant
            i <= entries@.len(),
            forall|j: int| 0 <= j < i ==> entries@[j].0@ != key@,
        decreases entries@.len() - i,
    {
        if entries[i].0 == *key {
            return Some(i);
        }
        i = i + 1;
    }
    assert(!has_key(entries@, key@)) by {
        if has_key(entries@, key@) {
            let j = key_index(entries@, key@);
            assert(0 <= j < entries@.len() && entries@[j].0@ == key@);
        }
    }
    None
}

/// Copies an amount table entry for entry; the copy equals the
/// original.
pub(crate) fn clone_amounts(entries: &Vec<(String, u128)>) -> (r: Vec<(String, u128)>)
    ensures
        r@ == entries@,
{
    let mut r: Vec<(String, u128)> = Vec::new();
    let mut i: usize = 0;
    while i < entries.len()
        invariant
            i <= entries@.len(),
            r@ == entries@.subrange(0, i as int),
        decreases entries@.len() - i,
    {
        r.push((entries[i].0.clone(), entries[i].1));
        assert(r@ == entries@.subrange(0, i + 1 as int));
        i = i + 1;
    }
    assert(entries@.subrange(0, entries@.len() as int) == entries@);
    r
}

/// Binds `key` to `value`, replacing an existing entry or appending a new
/// one; every other key's value is untouched.
pub fn upsert<V>(entries: &mut Vec<(String, V)>, key: String, value: V)
    requires
        keys_distinct(old(entries)@),
    ensures
        keys_distinct(final(entries)@),
        value_of(final(entries)@, key@) == Some(value),
        forall|k: Seq<char>| k != key@ ==> value_of(final(entries)@, k) == value_of(
            old(entries)@,
            k,
        ),
        (exists|i: int|
            0 <= i < old(entries)@.len() && old(entries)@[i].0@ == key@ && final(entries)@ == old(
                entries,
            )@.update(i, (key, value))) || (!has_key(old(entries)@, key@) && final(entries)@ == old(
            entries,
        )@.push((key, value))),
{
    let ghost s0 = entries@;
    match find_index(entries, &key) {
        Some(i) => {
            entries[i] = (key, value);
            proof {
                lemma_set_update(s0, i as int, entries@[i as int]);
            }
        },
        None => {
            entries.push((key, value));
            proof {
                lemma_set_push(s0, entries@[s0.len() as int]);
            }
        },
    }
}

} // verus!
