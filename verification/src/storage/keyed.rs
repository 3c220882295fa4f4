//! Ordered maps keyed by fixed-length byte identifiers, kept as sequences of entries
//! sorted by identifier: the mathematical map that such a sequence stands
//! for, and the facts about lookup, ordered insertion and "greatest key
//! that satisfies a predicate" that the block store relies on.
use crate::api::{id_lt, lemma_id_order};
use vstd::prelude::*;

verus! {

/// Entries are sorted strictly by key (so no key occurs twice).
pub open spec fn keys_sorted<const N: usize, V>(s: Seq<([u8; N], V)>) -> bool {
    forall|i: int, j: int| 0 <= i < j < s.len() ==> id_lt(#[trigger] s[i].0, #[trigger] s[j].0)
}

/// Some entry has key `k`.
pub open spec fn has_key<const N: usize, V>(s: Seq<([u8; N], V)>, k: [u8; N]) -> bool {
    exists|i: int| 0 <= i < s.len() && #[trigger] s[i].0 == k
}

/// The map that a sequence of entries stands for.
pub open spec fn entries_map<const N: usize, V>(s: Seq<([u8; N], V)>) -> Map<[u8; N], V> {
    Map::new(
        |k: [u8; N]| has_key(s, k),
        |k: [u8; N]| s[choose|i: int| 0 <= i < s.len() && #[trigger] s[i].0 == k].1,
    )
}

/// `k` is the greatest key of `m` whose entry satisfies `p`.
pub open spec fn is_max_key_where<const N: usize, V>(
    m: Map<[u8; N], V>,
    p: spec_fn([u8; N], V) -> bool,
    k: [u8; N],
) -> bool {
    &&& m.contains_key(k)
    &&& p(k, m[k])
    &&& forall|k2: [u8; N]| #[trigger] m.contains_key(k2) && p(k2, m[k2]) ==> !id_lt(k, k2)
}

/// The greatest key of `m` whose entry satisfies `p`, if any entry does.
pub open spec fn max_key_where<const N: usize, V>(m: Map<[u8; N], V>, p: spec_fn([u8; N], V) -> bool) -> Option<
    [u8; N],
> {
    if exists|k: [u8; N]| is_max_key_where(m, p, k) {
        Some(choose|k: [u8; N]| is_max_key_where(m, p, k))
    } else {
        None
    }
}

/// In a sorted sequence, each entry is what the map holds under its key.
pub proof fn lemma_entries_lookup<const N: usize, V>(s: Seq<([u8; N], V)>, i: int)
    requires
        keys_sorted(s),
        0 <= i < s.len(),
    ensures
        entries_map(s).contains_key(s[i].0),
        entries_map(s)[s[i].0] == s[i].1,
{
    assert(has_key(s, s[i].0));
    let j = choose|j: int| 0 <= j < s.len() && #[trigger] s[j].0 == s[i].0;
    if j < i {
        lemma_id_order(s[j].0, s[i].0, s[i].0);
    } else if i < j {
        lemma_id_order(s[i].0, s[j].0, s[j].0);
    }
}

/// A key is in the map exactly when some entry has it.
pub proof fn lemma_entries_contains<const N: usize, V>(s: Seq<([u8; N], V)>, k: [u8; N])
    requires
        keys_sorted(s),
    ensures
        entries_map(s).contains_key(k) <==> has_key(s, k),
        entries_map(s).contains_key(k) ==> exists|i: int|
            0 <= i < s.len() && #[trigger] s[i].0 == k && entries_map(s)[k] == s[i].1,
{
    if has_key(s, k) {
        let i = choose|i: int| 0 <= i < s.len() && #[trigger] s[i].0 == k;
        lemma_entries_lookup(s, i);
    }
}

/// The empty sequence stands for the empty map.
pub proof fn lemma_entries_empty<const N: usize, V>(s: Seq<([u8; N], V)>)
    requires
        s.len() == 0,
    ensures
        entries_map(s) =~= Map::<[u8; N], V>::empty(),
{
}

/// Inserting an entry at its place in key order keeps the order and adds the
/// entry to the map.
pub proof fn lemma_entries_insert<const N: usize, V>(s: Seq<([u8; N], V)>, p: int, k: [u8; N], v: V)
    requires
        keys_sorted(s),
        0 <= p <= s.len(),
        forall|i: int| 0 <= i < p ==> id_lt(#[trigger] s[i].0, k),
        forall|i: int| p <= i < s.len() ==> id_lt(k, #[trigger] s[i].0),
    ensures
        keys_sorted(s.insert(p, (k, v))),
        entries_map(s.insert(p, (k, v))) =~= entries_map(s).insert(k, v),
        !entries_map(s).contains_key(k),
{
    let t = s.insert(p, (k, v));
    assert forall|i: int, j: int| 0 <= i < j < t.len() implies id_lt(#[trigger] t[i].0, #[trigger] t[j].0) by {
        if i < p && j < p {
        } else if i < p && j == p {
        } else if i < p && j > p {
            assert(t[j] == s[j - 1]);
            lemma_id_order(s[i].0, k, s[j - 1].0);
        } else if i == p {
            assert(t[j] == s[j - 1]);
        } else {
            assert(t[i] == s[i - 1]);
            assert(t[j] == s[j - 1]);
        }
    }
    assert(!has_key(s, k)) by {
        if has_key(s, k) {
            let i = choose|i: int| 0 <= i < s.len() && #[trigger] s[i].0 == k;
            lemma_id_order(k, k, k);
        }
    }
    assert forall|x: [u8; N]| #[trigger] entries_map(t).contains_key(x) <==> entries_map(s).insert(
        k,
        v,
    ).contains_key(x) by {
        lemma_entries_contains(t, x);
        lemma_entries_contains(s, x);
        if has_key(s, x) {
            let i = choose|i: int| 0 <= i < s.len() && #[trigger] s[i].0 == x;
            if i < p {
                assert(t[i] == s[i]);
            } else {
                assert(t[i + 1] == s[i]);
            }
        }
        if has_key(t, x) {
            let i = choose|i: int| 0 <= i < t.len() && #[trigger] t[i].0 == x;
            if i < p {
                assert(t[i] == s[i]);
            } else if i > p {
                assert(t[i] == s[i - 1]);
            }
        }
        assert(t[p].0 == k);
    }
    assert forall|x: [u8; N]| #[trigger] entries_map(t).contains_key(x) implies entries_map(t)[x]
        == entries_map(s).insert(k, v)[x] by {
        lemma_entries_contains(t, x);
        let i = choose|i: int|
            0 <= i < t.len() && #[trigger] t[i].0 == x && entries_map(t)[x] == t[i].1;
        if i < p {
            assert(t[i] == s[i]);
            lemma_entries_lookup(s, i);
        } else if i > p {
            assert(t[i] == s[i - 1]);
            lemma_entries_lookup(s, i - 1);
        }
    }
}

/// In a sorted sequence, the last entry that satisfies `p` holds the greatest
/// key of the map whose entry satisfies `p`.
pub proof fn lemma_last_match_is_max<const N: usize, V>(s: Seq<([u8; N], V)>, p: spec_fn([u8; N], V) -> bool, i: int)
    requires
        keys_sorted(s),
        0 <= i < s.len(),
        p(s[i].0, s[i].1),
        forall|j: int| i < j < s.len() ==> !p(#[trigger] s[j].0, s[j].1),
    ensures
        max_key_where(entries_map(s), p) == Some(s[i].0),
        is_max_key_where(entries_map(s), p, s[i].0),
{
    let m = entries_map(s);
    lemma_entries_lookup(s, i);
    assert forall|k2: [u8; N]| #[trigger] m.contains_key(k2) && p(k2, m[k2]) implies !id_lt(s[i].0, k2) by {
        lemma_entries_contains(s, k2);
        let j = choose|j: int| 0 <= j < s.len() && #[trigger] s[j].0 == k2 && m[k2] == s[j].1;
        if j > i {
        } else if j < i {
            lemma_id_order(s[j].0, s[i].0, s[i].0);
        } else {
            lemma_id_order(s[i].0, s[i].0, s[i].0);
        }
    }
    assert(is_max_key_where(m, p, s[i].0));
    let c = choose|k: [u8; N]| is_max_key_where(m, p, k);
    lemma_id_order(c, s[i].0, s[i].0);
}

/// When no entry satisfies `p`, no key of the map does.
pub proof fn lemma_no_match<const N: usize, V>(s: Seq<([u8; N], V)>, p: spec_fn([u8; N], V) -> bool)
    requires
        keys_sorted(s),
        forall|j: int| 0 <= j < s.len() ==> !p(#[trigger] s[j].0, s[j].1),
    ensures
        max_key_where(entries_map(s), p) is None,
        forall|k: [u8; N]| #[trigger] entries_map(s).contains_key(k) ==> !p(k, entries_map(s)[k]),
{
    let m = entries_map(s);
    assert forall|k: [u8; N]| #[trigger] m.contains_key(k) implies !p(k, m[k]) by {
        lemma_entries_contains(s, k);
        let j = choose|j: int| 0 <= j < s.len() && #[trigger] s[j].0 == k && m[k] == s[j].1;
    }
}

/// Replacing the value of an entry keeps the order and updates the map.
pub proof fn lemma_entries_update<const N: usize, V>(s: Seq<([u8; N], V)>, i: int, v: V)
    requires
        keys_sorted(s),
        0 <= i < s.len(),
    ensures
        keys_sorted(s.update(i, (s[i].0, v))),
        entries_map(s.update(i, (s[i].0, v))) =~= entries_map(s).insert(s[i].0, v),
{
    let t = s.update(i, (s[i].0, v));
    assert(keys_sorted(t)) by {
        assert forall|a: int, b: int| 0 <= a < b < t.len() implies id_lt(#[trigger] t[a].0, #[trigger] t[b].0) by {
            assert(t[a].0 == s[a].0);
            assert(t[b].0 == s[b].0);
        }
    }
    assert forall|x: [u8; N]| #[trigger] entries_map(t).contains_key(x) <==> entries_map(s).insert(
        s[i].0,
        v,
    ).contains_key(x) by {
        lemma_entries_contains(t, x);
        lemma_entries_contains(s, x);
        if has_key(s, x) {
            let j = choose|j: int| 0 <= j < s.len() && #[trigger] s[j].0 == x;
            assert(t[j].0 == x);
        }
        if has_key(t, x) {
            let j = choose|j: int| 0 <= j < t.len() && #[trigger] t[j].0 == x;
            assert(s[j].0 == x);
        }
        assert(t[i].0 == s[i].0);
    }
    assert forall|x: [u8; N]| #[trigger] entries_map(t).contains_key(x) implies entries_map(t)[x]
        == entries_map(s).insert(s[i].0, v)[x] by {
        lemma_entries_contains(t, x);
        let j = choose|j: int|
            0 <= j < t.len() && #[trigger] t[j].0 == x && entries_map(t)[x] == t[j].1;
        if j != i {
            assert(t[j] == s[j]);
            lemma_entries_lookup(s, j);
            if x == s[i].0 {
                lemma_entries_lookup(t, i);
            }
        } else {
            lemma_entries_lookup(t, i);
        }
    }
}

} // verus!
