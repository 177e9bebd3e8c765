//! Sequences of keyed entries, the model of the sheet's lookup tables.
use vstd::prelude::*;

verus! {

/// Some entry of `s` has key `k`.
pub open spec fn has_key<V>(s: Seq<(Seq<char>, V)>, k: Seq<char>) -> bool {
    exists|i: int| 0 <= i < s.len() && s[i].0 == k
}

/// `i` is the first position of key `k` in `s`.
pub open spec fn is_key_pos<V>(s: Seq<(Seq<char>, V)>, k: Seq<char>, i: int) -> bool {
    &&& 0 <= i < s.len()
    &&& s[i].0 == k
    &&& forall|j: int| 0 <= j < i ==> s[j].0 != k
}

/// The first position of key `k` in `s`, or -1 where there is none.
pub open spec fn key_pos<V>(s: Seq<(Seq<char>, V)>, k: Seq<char>) -> int {
    if exists|i: int| is_key_pos(s, k, i) {
        choose|i: int| is_key_pos(s, k, i)
    } else {
        -1
    }
}

/// The value under key `k` (meaningful where `has_key(s, k)`).
pub open spec fn value_of<V>(s: Seq<(Seq<char>, V)>, k: Seq<char>) -> V {
    s[key_pos(s, k)].1
}

/// No key occurs twice.
pub open spec fn unique_keys<V>(s: Seq<(Seq<char>, V)>) -> bool {
    forall|i: int, j: int| 0 <= i < j < s.len() ==> s[i].0 != s[j].0
}

/// The set of keys of `s`.
pub open spec fn key_set<V>(s: Seq<(Seq<char>, V)>) -> Set<Seq<char>> {
    Set::new(|k: Seq<char>| has_key(s, k))
}

pub proof fn lemma_key_pos_is<V>(s: Seq<(Seq<char>, V)>, k: Seq<char>, i: int)
    requires
        is_key_pos(s, k, i),
    ensures
        key_pos(s, k) == i,
        has_key(s, k),
{
    let c = choose|m: int| is_key_pos(s, k, m);
    if c < i {
        assert(s[c].0 != k);
    } else if c > i {
        assert(s[i].0 != k);
    }
}

pub proof fn lemma_key_pos_found<V>(s: Seq<(Seq<char>, V)>, k: Seq<char>)
    requires
        has_key(s, k),
    ensures
        is_key_pos(s, k, key_pos(s, k)),
{
    let i = choose|i: int| 0 <= i < s.len() && s[i].0 == k;
    lemma_first_exists(s, k, i);
}

proof fn lemma_first_exists<V>(s: Seq<(Seq<char>, V)>, k: Seq<char>, i: int)
    requires
        0 <= i < s.len(),
        s[i].0 == k,
    ensures
        exists|m: int| is_key_pos(s, k, m),
    decreases i,
{
    if forall|j: int| 0 <= j < i ==> s[j].0 != k {
        assert(is_key_pos(s, k, i));
    } else {
        let j = choose|j: int| 0 <= j < i && s[j].0 == k;
        lemma_first_exists(s, k, j);
    }
}

/// In a table with unique keys, the entry at `i` is the one found for its key.
pub proof fn lemma_unique_pos<V>(s: Seq<(Seq<char>, V)>, i: int)
    requires
        unique_keys(s),
        0 <= i < s.len(),
    ensures
        key_pos(s, s[i].0) == i,
{
    assert forall|j: int| 0 <= j < i implies s[j].0 != s[i].0 by {}
    lemma_key_pos_is(s, s[i].0, i);
}

/// Appending an entry adds its key and leaves the earlier entries' lookups alone.
pub proof fn lemma_push_keys<V>(s: Seq<(Seq<char>, V)>, e: (Seq<char>, V))
    ensures
        key_set(s.push(e)) == key_set(s).insert(e.0),
        forall|k: Seq<char>| has_key(s, k) ==> key_pos(s.push(e), k) == key_pos(s, k),
{
    let t = s.push(e);
    assert forall|k: Seq<char>| has_key(t, k) == (has_key(s, k) || k == e.0) by {
        if has_key(t, k) && !has_key(s, k) {
            let i = choose|i: int| 0 <= i < t.len() && t[i].0 == k;
            if i < s.len() {
                assert(s[i].0 == k);
            }
        }
        if k == e.0 {
            assert(t[s.len() as int].0 == k);
        }
        if has_key(s, k) {
            let i = choose|i: int| 0 <= i < s.len() && s[i].0 == k;
            assert(t[i].0 == k);
        }
    }
    assert(key_set(t) =~= key_set(s).insert(e.0));
    assert forall|k: Seq<char>| has_key(s, k) implies key_pos(t, k) == key_pos(s, k) by {
        lemma_key_pos_found(s, k);
        let p = key_pos(s, k);
        assert forall|j: int| 0 <= j < p implies t[j].0 != k by {
            assert(s[j].0 != k);
        }
        lemma_key_pos_is(t, k, p);
    }
}

} // verus!
