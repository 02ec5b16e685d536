//! The mathematical model shared by both list engines: a list is a sequence
//! of key-value pairs with pairwise-distinct keys. Storage order carries no
//! meaning of its own; display order is always derived by sorting or
//! filtering.

use vstd::prelude::*;

verus! {

/// The first position `j >= i` whose pair carries `key`, or `-1` if there is
/// none.
pub open spec fn find_pair_from<K, V>(s: Seq<(K, V)>, i: int, key: K) -> int
    decreases s.len() - i,
{
    if i >= s.len() {
        -1
    } else if s[i].0 == key {
        i
    } else {
        find_pair_from(s, i + 1, key)
    }
}

/// The position of the pair carrying `key`, or `-1` when `key` is absent.
pub open spec fn find_pair<K, V>(s: Seq<(K, V)>, key: K) -> int {
    find_pair_from(s, 0, key)
}

/// Every two pairs carry different keys.
pub open spec fn unique_keys<K, V>(s: Seq<(K, V)>) -> bool {
    forall|i: int, j: int| 0 <= i < j < s.len() ==> s[i].0 != s[j].0
}

/// The value stored under `key`, or `None` when `key` is absent.
pub open spec fn pair_value<K, V>(s: Seq<(K, V)>, key: K) -> Option<V> {
    let i = find_pair(s, key);
    if i >= 0 {
        Some(s[i].1)
    } else {
        None
    }
}

/// What [`find_pair_from`] returns: either `-1` and no pair at or after `i`
/// carries `key`, or the first position at or after `i` that does.
pub proof fn lemma_find_pair_from<K, V>(s: Seq<(K, V)>, i: int, key: K)
    requires
        0 <= i <= s.len(),
    ensures
        find_pair_from(s, i, key) == -1 <==> (forall|j: int| i <= j < s.len() ==> s[j].0 != key),
        find_pair_from(s, i, key) != -1 ==> {
            let r = find_pair_from(s, i, key);
            &&& i <= r < s.len()
            &&& s[r].0 == key
            &&& forall|j: int| i <= j < r ==> s[j].0 != key
        },
    decreases s.len() - i,
{
    if i < s.len() && s[i].0 != key {
        lemma_find_pair_from(s, i + 1, key);
    }
}

/// The scan from `a` stops exactly at `i` when `i` carries `key` and no
/// earlier position at or after `a` does.
pub proof fn lemma_find_pair_from_is<K, V>(s: Seq<(K, V)>, a: int, i: int, key: K)
    requires
        0 <= a <= i < s.len(),
        s[i].0 == key,
        forall|m: int| a <= m < i ==> s[m].0 != key,
    ensures
        find_pair_from(s, a, key) == i,
    decreases i - a,
{
    if a < i {
        lemma_find_pair_from_is(s, a + 1, i, key);
    }
}

/// [`find_pair`] returns `i` when `i` carries `key` and no earlier position
/// does.
pub proof fn lemma_find_pair_is<K, V>(s: Seq<(K, V)>, i: int, key: K)
    requires
        0 <= i < s.len(),
        s[i].0 == key,
        forall|m: int| 0 <= m < i ==> s[m].0 != key,
    ensures
        find_pair(s, key) == i,
{
    lemma_find_pair_from_is(s, 0, i, key);
}

/// Appending a pair under a fresh key makes it findable, at the end.
pub proof fn lemma_find_pair_push_fresh<K, V>(s: Seq<(K, V)>, key: K, v: V)
    requires
        find_pair(s, key) == -1,
    ensures
        find_pair(s.push((key, v)), key) == s.len(),
{
    let t = s.push((key, v));
    lemma_find_pair(s, key);
    assert forall|m: int| 0 <= m < s.len() implies t[m].0 != key by {
        assert(t[m] == s[m]);
    }
    lemma_find_pair_is(t, s.len() as int, key);
}

/// Replacing the pair that carries `key`, keeping its key, leaves it
/// findable at the same position.
pub proof fn lemma_find_pair_update<K, V>(s: Seq<(K, V)>, i: int, key: K, v: V)
    requires
        0 <= i < s.len(),
        find_pair(s, key) == i,
    ensures
        find_pair(s.update(i, (key, v)), key) == i,
{
    lemma_find_pair_from(s, 0, key);
    let t = s.update(i, (key, v));
    assert forall|m: int| 0 <= m < i implies t[m].0 != key by {
        assert(t[m] == s[m]);
    }
    lemma_find_pair_is(t, i, key);
}

/// Removing one pair never changes what another key maps to.
pub proof fn lemma_remove_preserves_others<K, V>(s: Seq<(K, V)>, i: int, k2: K)
    requires
        0 <= i < s.len(),
        s[i].0 != k2,
    ensures
        pair_value(s.remove(i), k2) == pair_value(s, k2),
{
    let t = s.remove(i);
    s.remove_ensures(i);
    lemma_find_pair_from(s, 0, k2);
    let j = find_pair(s, k2);
    if j == -1 {
        assert forall|m: int| 0 <= m < t.len() implies t[m].0 != k2 by {
            if m < i {
                assert(t[m] == s[m]);
            } else {
                assert(t[m] == s[m + 1]);
            }
        }
        lemma_find_pair_from(t, 0, k2);
    } else if j < i {
        assert(t[j] == s[j]);
        assert forall|m: int| 0 <= m < j implies t[m].0 != k2 by {
            assert(t[m] == s[m]);
        }
        lemma_find_pair_is(t, j, k2);
    } else {
        assert(t[j - 1] == s[j]);
        assert forall|m: int| 0 <= m < j - 1 implies t[m].0 != k2 by {
            if m < i {
                assert(t[m] == s[m]);
            } else {
                assert(t[m] == s[m + 1]);
            }
        }
        lemma_find_pair_is(t, j - 1, k2);
    }
}

/// What [`find_pair`] returns, on a list with unique keys: `-1` exactly when
/// no pair carries `key`, and otherwise the one position that does.
pub proof fn lemma_find_pair<K, V>(s: Seq<(K, V)>, key: K)
    ensures
        find_pair(s, key) == -1 ==> forall|j: int| 0 <= j < s.len() ==> s[j].0 != key,
        find_pair(s, key) != -1 ==> {
            let r = find_pair(s, key);
            &&& 0 <= r < s.len()
            &&& s[r].0 == key
            &&& unique_keys(s) ==> forall|j: int| 0 <= j < s.len() && s[j].0 == key ==> j == r
        },
{
    lemma_find_pair_from(s, 0, key);
    if find_pair(s, key) != -1 && unique_keys(s) {
        let r = find_pair(s, key);
        assert forall|j: int| 0 <= j < s.len() && s[j].0 == key implies j == r by {
            if j < r {
                assert(s[j].0 != key);
            } else if j > r {
                assert(s[r].0 != s[j].0);
            }
        }
    }
}

} // verus!
