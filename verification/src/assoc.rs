//! Sequences of key/value pairs read as finite maps.
//!
//! The store keeps each of its keyed collections as a vector of pairs with
//! pairwise distinct keys; contracts speak of the [`assoc_map`] such a vector
//! denotes. The lemmas here relate the vector edits the executable code
//! performs (push, update, insert, remove) to the map they produce.

use vstd::prelude::*;

verus! {

/// Whether some pair of `s` binds the key `k`.
pub open spec fn assoc_has<K, V>(s: Seq<(K, V)>, k: K) -> bool {
    exists|i: int| 0 <= i < s.len() && s[i].0 == k
}

/// An index of a pair of `s` binding the key `k`.
pub open spec fn assoc_index<K, V>(s: Seq<(K, V)>, k: K) -> int {
    choose|i: int| 0 <= i < s.len() && s[i].0 == k
}

/// The finite map denoted by `s`: each bound key maps to the value of a pair
/// binding it.
pub open spec fn assoc_map<K, V>(s: Seq<(K, V)>) -> Map<K, V> {
    Map::new(|k: K| assoc_has(s, k), |k: K| s[assoc_index(s, k)].1)
}

/// No two pairs of `s` bind the same key.
pub open spec fn assoc_unique<K, V>(s: Seq<(K, V)>) -> bool {
    forall|i: int, j: int| 0 <= i < j < s.len() ==> s[i].0 != s[j].0
}

/// With distinct keys, the pair at any index gives its key's binding in the
/// denoted map.
pub proof fn lemma_assoc_at<K, V>(s: Seq<(K, V)>, i: int)
    requires
        assoc_unique(s),
        0 <= i < s.len(),
    ensures
        assoc_map(s).contains_key(s[i].0),
        assoc_map(s)[s[i].0] == s[i].1,
{
    assert(assoc_has(s, s[i].0));
    let j = assoc_index(s, s[i].0);
    assert(0 <= j < s.len() && s[j].0 == s[i].0);
    if j < i {
        assert(s[j].0 != s[i].0);
    } else if i < j {
        assert(s[i].0 != s[j].0);
    }
}

/// A key bound by no pair is outside the denoted map.
pub proof fn lemma_assoc_absent<K, V>(s: Seq<(K, V)>, k: K)
    requires
        forall|i: int| 0 <= i < s.len() ==> s[i].0 != k,
    ensures
        !assoc_map(s).contains_key(k),
{
}

/// Appending a pair with a fresh key inserts that binding into the map.
pub proof fn lemma_assoc_push<K, V>(s: Seq<(K, V)>, k: K, v: V)
    requires
        assoc_unique(s),
        !assoc_has(s, k),
    ensures
        assoc_unique(s.push((k, v))),
        assoc_map(s.push((k, v))) == assoc_map(s).insert(k, v),
{
    let s2 = s.push((k, v));
    assert forall|i: int, j: int| 0 <= i < j < s2.len() implies s2[i].0 != s2[j].0 by {
        if j == s.len() {
            assert(s2[i] == s[i]);
            if s[i].0 == k {
                assert(assoc_has(s, k));
            }
        } else {
            assert(s2[i] == s[i] && s2[j] == s[j]);
        }
    }
    assert(assoc_map(s2) =~= assoc_map(s).insert(k, v)) by {
        assert forall|k2: K| #[trigger] assoc_has(s2, k2) implies assoc_has(s, k2) || k2 == k by {
            let i = choose|i: int| 0 <= i < s2.len() && s2[i].0 == k2;
            if i < s.len() {
                assert(s[i].0 == k2);
            }
        }
        assert forall|k2: K| #[trigger] assoc_has(s, k2) implies assoc_has(s2, k2) by {
            let i = choose|i: int| 0 <= i < s.len() && s[i].0 == k2;
            assert(s2[i].0 == k2);
        }
        assert(s2[s.len() as int].0 == k);
        assert(assoc_has(s2, k));
        assert forall|k2: K| assoc_has(s2, k2) implies #[trigger] assoc_map(s2)[k2]
            == assoc_map(s).insert(k, v)[k2] by {
            if k2 == k {
                lemma_assoc_at(s2, s.len() as int);
            } else {
                let i = choose|i: int| 0 <= i < s.len() && s[i].0 == k2;
                lemma_assoc_at(s, i);
                assert(s2[i] == s[i]);
                lemma_assoc_at(s2, i);
            }
        }
    }
}

/// Replacing the value of the pair at an index rebinds its key in the map.
pub proof fn lemma_assoc_update<K, V>(s: Seq<(K, V)>, i: int, v: V)
    requires
        assoc_unique(s),
        0 <= i < s.len(),
    ensures
        assoc_unique(s.update(i, (s[i].0, v))),
        assoc_map(s.update(i, (s[i].0, v))) == assoc_map(s).insert(s[i].0, v),
{
    let k = s[i].0;
    let s2 = s.update(i, (k, v));
    assert forall|p: int, q: int| 0 <= p < q < s2.len() implies s2[p].0 != s2[q].0 by {
        assert(s2[p].0 == s[p].0 && s2[q].0 == s[q].0);
    }
    assert(assoc_map(s2) =~= assoc_map(s).insert(k, v)) by {
        assert(s2[i].0 == k);
        assert(assoc_has(s2, k));
        assert(assoc_has(s, k));
        assert forall|k2: K| #[trigger] assoc_has(s2, k2) implies assoc_has(s, k2) by {
            let j = choose|j: int| 0 <= j < s2.len() && s2[j].0 == k2;
            assert(s[j].0 == k2);
        }
        assert forall|k2: K| #[trigger] assoc_has(s, k2) implies assoc_has(s2, k2) by {
            let j = choose|j: int| 0 <= j < s.len() && s[j].0 == k2;
            assert(s2[j].0 == k2);
        }
        assert forall|k2: K| assoc_has(s2, k2) implies #[trigger] assoc_map(s2)[k2]
            == assoc_map(s).insert(k, v)[k2] by {
            if k2 == k {
                lemma_assoc_at(s2, i);
            } else {
                let j = choose|j: int| 0 <= j < s.len() && s[j].0 == k2;
                lemma_assoc_at(s, j);
                assert(j != i);
                assert(s2[j] == s[j]);
                lemma_assoc_at(s2, j);
            }
        }
    }
}

/// Inserting a pair with a fresh key at any position inserts that binding
/// into the map.
pub proof fn lemma_assoc_insert_at<K, V>(s: Seq<(K, V)>, i: int, k: K, v: V)
    requires
        assoc_unique(s),
        !assoc_has(s, k),
        0 <= i <= s.len(),
    ensures
        assoc_unique(s.insert(i, (k, v))),
        assoc_map(s.insert(i, (k, v))) == assoc_map(s).insert(k, v),
{
    let s2 = s.insert(i, (k, v));
    assert(s2.len() == s.len() + 1);
    assert forall|j: int| 0 <= j < s2.len() implies s2[j] == (if j < i {
        s[j]
    } else if j == i {
        (k, v)
    } else {
        s[j - 1]
    }) by {}
    assert forall|p: int, q: int| 0 <= p < q < s2.len() implies s2[p].0 != s2[q].0 by {
        if p == i {
            if s[q - 1].0 == k {
                assert(assoc_has(s, k));
            }
        } else if q == i {
            if s[p].0 == k {
                assert(assoc_has(s, k));
            }
        }
    }
    assert(assoc_map(s2) =~= assoc_map(s).insert(k, v)) by {
        assert forall|k2: K| #[trigger] assoc_has(s2, k2) implies assoc_has(s, k2) || k2 == k by {
            let j = choose|j: int| 0 <= j < s2.len() && s2[j].0 == k2;
            if j < i {
                assert(s[j].0 == k2);
            } else if j > i {
                assert(s[j - 1].0 == k2);
            }
        }
        assert forall|k2: K| #[trigger] assoc_has(s, k2) implies assoc_has(s2, k2) by {
            let j = choose|j: int| 0 <= j < s.len() && s[j].0 == k2;
            if j < i {
                assert(s2[j].0 == k2);
            } else {
                assert(s2[j + 1].0 == k2);
            }
        }
        assert(s2[i].0 == k);
        assert(assoc_has(s2, k));
        assert forall|k2: K| assoc_has(s2, k2) implies #[trigger] assoc_map(s2)[k2]
            == assoc_map(s).insert(k, v)[k2] by {
            if k2 == k {
                lemma_assoc_at(s2, i);
            } else {
                let j = choose|j: int| 0 <= j < s.len() && s[j].0 == k2;
                lemma_assoc_at(s, j);
                if j < i {
                    assert(s2[j] == s[j]);
                    lemma_assoc_at(s2, j);
                } else {
                    assert(s2[j + 1] == s[j]);
                    lemma_assoc_at(s2, j + 1);
                }
            }
        }
    }
}

/// Removing the pair at an index removes its key's binding from the map.
pub proof fn lemma_assoc_remove<K, V>(s: Seq<(K, V)>, i: int)
    requires
        assoc_unique(s),
        0 <= i < s.len(),
    ensures
        assoc_unique(s.remove(i)),
        assoc_map(s.remove(i)) == assoc_map(s).remove(s[i].0),
{
    let k = s[i].0;
    let s2 = s.remove(i);
    assert(s2.len() == s.len() - 1);
    assert forall|j: int| 0 <= j < s2.len() implies s2[j] == (if j < i {
        s[j]
    } else {
        s[j + 1]
    }) by {}
    assert forall|p: int, q: int| 0 <= p < q < s2.len() implies s2[p].0 != s2[q].0 by {}
    assert(assoc_map(s2) =~= assoc_map(s).remove(k)) by {
        assert forall|k2: K| #[trigger] assoc_has(s2, k2) implies assoc_has(s, k2) && k2 != k by {
            let j = choose|j: int| 0 <= j < s2.len() && s2[j].0 == k2;
            if j < i {
                assert(s[j].0 == k2);
                if k2 == k {
                    assert(s[j].0 == s[i].0);
                }
            } else {
                assert(s[j + 1].0 == k2);
                if k2 == k {
                    assert(s[j + 1].0 == s[i].0);
                }
            }
        }
        assert forall|k2: K| #[trigger] assoc_has(s, k2) && k2 != k implies assoc_has(s2, k2) by {
            let j = choose|j: int| 0 <= j < s.len() && s[j].0 == k2;
            assert(j != i);
            if j < i {
                assert(s2[j].0 == k2);
            } else {
                assert(s2[j - 1].0 == k2);
            }
        }
        assert forall|k2: K| assoc_has(s2, k2) implies #[trigger] assoc_map(s2)[k2]
            == assoc_map(s).remove(k)[k2] by {
            let j = choose|j: int| 0 <= j < s2.len() && s2[j].0 == k2;
            lemma_assoc_at(s2, j);
            if j < i {
                assert(s2[j] == s[j]);
                lemma_assoc_at(s, j);
            } else {
                assert(s2[j] == s[j + 1]);
                lemma_assoc_at(s, j + 1);
            }
        }
    }
}

} // verus!
