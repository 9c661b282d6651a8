//! Sequences of key/value pairs read as maps, where a later pair for a key
//! overrides an earlier one.
use vstd::prelude::*;

verus! {

/// The map obtained by writing the pairs of `s` over `m`, in order.
pub open spec fn overlay<K, V>(m: Map<K, V>, s: Seq<(K, V)>) -> Map<K, V>
    decreases s.len(),
{
    if s.len() == 0 {
        m
    } else {
        overlay(m, s.drop_last()).insert(s.last().0, s.last().1)
    }
}

/// The map that a sequence of pairs describes.
pub open spec fn to_map<K, V>(s: Seq<(K, V)>) -> Map<K, V> {
    overlay(Map::empty(), s)
}

/// No key occurs twice.
pub open spec fn keys_unique<K, V>(s: Seq<(K, V)>) -> bool {
    forall|i: int, j: int|
        0 <= i < s.len() && 0 <= j < s.len() && #[trigger] s[i].0 == #[trigger] s[j].0 ==> i == j
}

/// Some pair of `s` has key `k`.
pub open spec fn has_key<K, V>(s: Seq<(K, V)>, k: K) -> bool {
    exists|i: int| 0 <= i < s.len() && #[trigger] s[i].0 == k
}

/// The position of the last pair with key `k`, or -1.
pub open spec fn last_index<K, V>(s: Seq<(K, V)>, k: K) -> int
    decreases s.len(),
{
    if s.len() == 0 {
        -1
    } else if s.last().0 == k {
        s.len() - 1
    } else {
        last_index(s.drop_last(), k)
    }
}

pub proof fn lemma_last_index<K, V>(s: Seq<(K, V)>, k: K)
    ensures
        -1 <= last_index(s, k) < s.len(),
        last_index(s, k) >= 0 ==> s[last_index(s, k)].0 == k,
        last_index(s, k) >= 0 ==> forall|j: int|
            last_index(s, k) < j < s.len() ==> #[trigger] s[j].0 != k,
        last_index(s, k) < 0 <==> !has_key(s, k),
    decreases s.len(),
{
    if s.len() > 0 {
        let d = s.drop_last();
        lemma_last_index(d, k);
        if s.last().0 != k {
            assert forall|j: int| last_index(s, k) < j < s.len() implies #[trigger] s[j].0 != k by {
                if j < s.len() - 1 {
                    assert(d[j] == s[j]);
                }
            }
            if has_key(s, k) {
                let i = choose|i: int| 0 <= i < s.len() && #[trigger] s[i].0 == k;
                assert(d[i].0 == k);
            }
            if has_key(d, k) {
                let i = choose|i: int| 0 <= i < d.len() && #[trigger] d[i].0 == k;
                assert(s[i].0 == k);
            }
        } else {
            assert(s[s.len() - 1].0 == k);
        }
    }
}

/// What `overlay` holds at one key.
pub proof fn lemma_overlay_at<K, V>(m: Map<K, V>, s: Seq<(K, V)>, k: K)
    ensures
        overlay(m, s).contains_key(k) <==> (m.contains_key(k) || has_key(s, k)),
        has_key(s, k) ==> overlay(m, s)[k] == s[last_index(s, k)].1,
        !has_key(s, k) ==> overlay(m, s)[k] == m[k],
    decreases s.len(),
{
    lemma_last_index(s, k);
    if s.len() > 0 {
        let d = s.drop_last();
        lemma_overlay_at(m, d, k);
        lemma_last_index(d, k);
    }
}

/// With unique keys, the pair at `i` is what the map holds at its key.
pub proof fn lemma_unique_at<K, V>(s: Seq<(K, V)>, i: int)
    requires
        keys_unique(s),
        0 <= i < s.len(),
    ensures
        last_index(s, s[i].0) == i,
        to_map(s).contains_key(s[i].0),
        to_map(s)[s[i].0] == s[i].1,
{
    lemma_last_index(s, s[i].0);
    lemma_overlay_at(Map::empty(), s, s[i].0);
}

/// Writing the same pairs twice gives what writing them once gives.
pub proof fn lemma_overlay_idempotent<K, V>(m: Map<K, V>, s: Seq<(K, V)>)
    ensures
        overlay(overlay(m, s), s) == overlay(m, s),
{
    let once = overlay(m, s);
    assert forall|k: K| #[trigger] overlay(once, s).contains_key(k) == once.contains_key(k) by {
        lemma_overlay_at(once, s, k);
        lemma_overlay_at(m, s, k);
    }
    assert forall|k: K| #[trigger] overlay(once, s).contains_key(k) implies overlay(once, s)[k]
        == once[k] by {
        lemma_overlay_at(once, s, k);
        lemma_overlay_at(m, s, k);
    }
    assert(overlay(once, s) =~= once);
}

/// Replacing the value of the pair at `i`.
pub proof fn lemma_update<K, V>(s: Seq<(K, V)>, i: int, v: V)
    requires
        keys_unique(s),
        0 <= i < s.len(),
    ensures
        keys_unique(s.update(i, (s[i].0, v))),
        to_map(s.update(i, (s[i].0, v))) == to_map(s).insert(s[i].0, v),
{
    let k = s[i].0;
    let t = s.update(i, (k, v));
    assert forall|a: int, b: int|
        0 <= a < t.len() && 0 <= b < t.len() && #[trigger] t[a].0 == #[trigger] t[b].0 implies a
        == b by {
        assert(s[a].0 == s[b].0);
    }
    let goal = to_map(s).insert(k, v);
    assert forall|x: K| #[trigger] to_map(t).contains_key(x) == goal.contains_key(x) by {
        lemma_overlay_at(Map::empty(), t, x);
        lemma_overlay_at(Map::empty(), s, x);
        if has_key(s, x) {
            let j = choose|j: int| 0 <= j < s.len() && #[trigger] s[j].0 == x;
            assert(t[j].0 == x);
        }
        if has_key(t, x) {
            let j = choose|j: int| 0 <= j < t.len() && #[trigger] t[j].0 == x;
            assert(s[j].0 == x);
        }
    }
    assert forall|x: K| #[trigger] to_map(t).contains_key(x) implies to_map(t)[x] == goal[x] by {
        lemma_overlay_at(Map::empty(), t, x);
        lemma_last_index(t, x);
        let j = last_index(t, x);
        assert(t[j].0 == x);
        lemma_unique_at(t, j);
        if x != k {
            assert(s[j].0 == x);
            lemma_unique_at(s, j);
        } else {
            assert(t[i].0 == k);
        }
    }
    assert(to_map(t) =~= goal);
}

/// Taking out the pair at `i`.
pub proof fn lemma_remove<K, V>(s: Seq<(K, V)>, i: int)
    requires
        keys_unique(s),
        0 <= i < s.len(),
    ensures
        keys_unique(s.remove(i)),
        to_map(s.remove(i)) == to_map(s).remove(s[i].0),
{
    let k = s[i].0;
    let t = s.remove(i);
    assert forall|a: int, b: int|
        0 <= a < t.len() && 0 <= b < t.len() && #[trigger] t[a].0 == #[trigger] t[b].0 implies a
        == b by {
        let a1 = if a < i { a } else { a + 1 };
        let b1 = if b < i { b } else { b + 1 };
        assert(t[a] == s[a1]);
        assert(t[b] == s[b1]);
    }
    let goal = to_map(s).remove(k);
    assert forall|x: K| #[trigger] to_map(t).contains_key(x) == goal.contains_key(x) by {
        lemma_overlay_at(Map::empty(), t, x);
        lemma_overlay_at(Map::empty(), s, x);
        if has_key(t, x) {
            let j = choose|j: int| 0 <= j < t.len() && #[trigger] t[j].0 == x;
            let j1 = if j < i { j } else { j + 1 };
            assert(s[j1] == t[j]);
            assert(j1 != i);
        }
        if has_key(s, x) && x != k {
            let j = choose|j: int| 0 <= j < s.len() && #[trigger] s[j].0 == x;
            let j0 = if j < i { j } else { j - 1 };
            assert(t[j0] == s[j]);
        }
    }
    assert forall|x: K| #[trigger] to_map(t).contains_key(x) implies to_map(t)[x] == goal[x] by {
        lemma_overlay_at(Map::empty(), t, x);
        lemma_last_index(t, x);
        let j = last_index(t, x);
        lemma_unique_at(t, j);
        let j1 = if j < i { j } else { j + 1 };
        assert(s[j1] == t[j]);
        lemma_unique_at(s, j1);
    }
    assert(to_map(t) =~= goal);
}

/// Appending a pair whose key is new.
pub proof fn lemma_push<K, V>(s: Seq<(K, V)>, k: K, v: V)
    requires
        keys_unique(s),
        !has_key(s, k),
    ensures
        keys_unique(s.push((k, v))),
        to_map(s.push((k, v))) == to_map(s).insert(k, v),
{
    let t = s.push((k, v));
    assert(t.drop_last() =~= s);
    assert forall|a: int, b: int|
        0 <= a < t.len() && 0 <= b < t.len() && #[trigger] t[a].0 == #[trigger] t[b].0 implies a
        == b by {
        if a < s.len() && b < s.len() {
            assert(s[a].0 == s[b].0);
        } else if a < s.len() {
            assert(s[a].0 == k);
        } else if b < s.len() {
            assert(s[b].0 == k);
        }
    }
}

/// The keys of the map are the keys of the pairs.
pub proof fn lemma_to_map_dom<K, V>(s: Seq<(K, V)>, k: K)
    ensures
        to_map(s).contains_key(k) <==> has_key(s, k),
{
    lemma_overlay_at(Map::empty(), s, k);
}

} // verus!
