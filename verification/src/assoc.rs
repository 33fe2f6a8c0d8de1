//! First-match lookup over association sequences, with the small facts the
//! caches built on them need: how lookup behaves under append, in-place
//! update, and filtering.

use vstd::prelude::*;

verus! {

/// The first entry of `s` whose key is `k`, if any.
pub open spec fn assoc_find<K, V>(s: Seq<(K, V)>, k: K) -> Option<(K, V)>
    decreases s.len(),
{
    if s.len() == 0 {
        None
    } else if s[0].0 == k {
        Some(s[0])
    } else {
        assoc_find(s.drop_first(), k)
    }
}

/// No two entries of `s` share a key.
pub open spec fn assoc_unique<K, V>(s: Seq<(K, V)>) -> bool {
    forall|i: int, j: int| 0 <= i < j < s.len() ==> s[i].0 != s[j].0
}

/// A found entry lies in the sequence and carries the searched key.
pub proof fn lemma_assoc_find_some<K, V>(s: Seq<(K, V)>, k: K)
    requires
        assoc_find(s, k) is Some,
    ensures
        s.contains(assoc_find(s, k)->Some_0),
        assoc_find(s, k)->Some_0.0 == k,
    decreases s.len(),
{
    if s.len() > 0 && s[0].0 != k {
        lemma_assoc_find_some(s.drop_first(), k);
        assert(s.drop_first().contains(assoc_find(s, k)->Some_0));
        let i = choose|i: int|
            0 <= i < s.drop_first().len() && s.drop_first()[i] == assoc_find(s, k)->Some_0;
        assert(s[i + 1] == assoc_find(s, k)->Some_0);
    } else if s.len() > 0 {
        assert(s[0] == assoc_find(s, k)->Some_0);
    }
}

/// When no entry matches, no key of the sequence is `k`.
pub proof fn lemma_assoc_find_none<K, V>(s: Seq<(K, V)>, k: K)
    requires
        assoc_find(s, k) is None,
    ensures
        forall|i: int| 0 <= i < s.len() ==> s[i].0 != k,
    decreases s.len(),
{
    if s.len() > 0 {
        lemma_assoc_find_none(s.drop_first(), k);
        assert(forall|i: int| 1 <= i < s.len() ==> s[i] == s.drop_first()[i - 1]);
    }
}

/// Appending an entry changes only lookups that previously found nothing.
pub proof fn lemma_assoc_find_push<K, V>(s: Seq<(K, V)>, e: (K, V), k: K)
    ensures
        assoc_find(s.push(e), k) == (if assoc_find(s, k) is Some {
            assoc_find(s, k)
        } else if e.0 == k {
            Some(e)
        } else {
            None
        }),
    decreases s.len(),
{
    let t = s.push(e);
    if s.len() == 0 {
        assert(t[0] == e);
        assert(t.drop_first() =~= Seq::<(K, V)>::empty());
    } else {
        lemma_assoc_find_push(s.drop_first(), e, k);
        assert(t[0] == s[0]);
        assert(t.drop_first() =~= s.drop_first().push(e));
        if s[0].0 == k {
            assert(assoc_find(t, k) == Some(s[0]));
            assert(assoc_find(s, k) == Some(s[0]));
        } else {
            assert(assoc_find(t, k) == assoc_find(t.drop_first(), k));
            assert(assoc_find(s, k) == assoc_find(s.drop_first(), k));
        }
    }
}

/// Updating the entry at the first index holding `k` rebinds `k` and leaves
/// every other lookup unchanged.
pub proof fn lemma_assoc_find_update<K, V>(s: Seq<(K, V)>, i: int, v: V, k: K)
    requires
        0 <= i < s.len(),
        s[i].0 == k,
        forall|j: int| 0 <= j < i ==> s[j].0 != k,
    ensures
        forall|k2: K|
            assoc_find(s.update(i, (k, v)), k2) == (if k2 == k {
                Some((k, v))
            } else {
                assoc_find(s, k2)
            }),
    decreases s.len(),
{
    let t = s.update(i, (k, v));
    if i == 0 {
        assert(t[0] == (k, v));
        assert(t.drop_first() =~= s.drop_first());
    } else {
        lemma_assoc_find_update(s.drop_first(), i - 1, v, k);
        assert(t[0] == s[0]);
        assert(t.drop_first() =~= s.drop_first().update(i - 1, (k, v)));
        assert forall|k2: K|
            assoc_find(t, k2) == (if k2 == k {
                Some((k, v))
            } else {
                assoc_find(s, k2)
            }) by {
            if s[0].0 == k2 {
                assert(k2 != k);
                assert(assoc_find(t, k2) == Some(s[0]));
                assert(assoc_find(s, k2) == Some(s[0]));
            } else {
                assert(assoc_find(t, k2) == assoc_find(t.drop_first(), k2));
                assert(assoc_find(s, k2) == assoc_find(s.drop_first(), k2));
            }
        }
    }
}

/// Every element of a filtered sequence comes from the original.
pub proof fn lemma_filter_elem<A>(s: Seq<A>, p: spec_fn(A) -> bool, i: int)
    requires
        0 <= i < s.filter(p).len(),
    ensures
        exists|j: int| 0 <= j < s.len() && s[j] == s.filter(p)[i],
    decreases s.len(),
{
    reveal(Seq::filter);
    if s.len() > 0 {
        let sub = s.drop_last().filter(p);
        if i < sub.len() {
            lemma_filter_elem(s.drop_last(), p, i);
            let j = choose|j: int| 0 <= j < s.drop_last().len() && s.drop_last()[j] == sub[i];
            assert(s[j] == s.filter(p)[i]);
        } else {
            assert(s.filter(p)[i] == s.last());
            assert(s[s.len() - 1] == s.last());
        }
    }
}

/// With unique keys, looking a key up after a filter finds the old entry
/// exactly when that entry passes the filter.
pub proof fn lemma_assoc_find_filter<K, V>(s: Seq<(K, V)>, p: spec_fn((K, V)) -> bool, k: K)
    requires
        assoc_unique(s),
    ensures
        assoc_find(s.filter(p), k) == (match assoc_find(s, k) {
            Some(e) => if p(e) {
                Some(e)
            } else {
                None
            },
            None => None::<(K, V)>,
        }),
    decreases s.len(),
{
    reveal(Seq::filter);
    if s.len() > 0 {
        let prefix = s.drop_last();
        assert(assoc_unique(prefix));
        lemma_assoc_find_filter(prefix, p, k);
        lemma_assoc_find_last(s, k);
        if p(s.last()) {
            lemma_assoc_find_push(prefix.filter(p), s.last(), k);
        }
        if assoc_find(prefix, k) is Some {
            lemma_assoc_find_some(prefix, k);
            let e = assoc_find(prefix, k)->Some_0;
            let j = choose|j: int| 0 <= j < prefix.len() && prefix[j] == e;
            assert(s[j] == e);
            assert(s.last() == s[s.len() - 1]);
            assert(s.last().0 != k);
        }
    }
}

/// Lookup in a nonempty sequence, phrased over `drop_last`: the shape the
/// `filter` recursion produces.
pub proof fn lemma_assoc_find_last<K, V>(s: Seq<(K, V)>, k: K)
    requires
        s.len() > 0,
    ensures
        assoc_find(s, k) == (if assoc_find(s.drop_last(), k) is Some {
            assoc_find(s.drop_last(), k)
        } else if s.last().0 == k {
            Some(s.last())
        } else {
            None
        }),
{
    assert(s =~= s.drop_last().push(s.last()));
    lemma_assoc_find_push(s.drop_last(), s.last(), k);
}

/// Filtering keeps keys unique.
pub proof fn lemma_assoc_unique_filter<K, V>(s: Seq<(K, V)>, p: spec_fn((K, V)) -> bool)
    requires
        assoc_unique(s),
    ensures
        assoc_unique(s.filter(p)),
    decreases s.len(),
{
    reveal(Seq::filter);
    if s.len() > 0 {
        let prefix = s.drop_last();
        assert(assoc_unique(prefix));
        lemma_assoc_unique_filter(prefix, p);
        if p(s.last()) {
            let out = prefix.filter(p).push(s.last());
            assert forall|i: int, j: int| 0 <= i < j < out.len() implies out[i].0 != out[j].0 by {
                if j == out.len() - 1 {
                    lemma_filter_elem(prefix, p, i);
                    let orig = choose|oi: int|
                        0 <= oi < prefix.len() && prefix[oi] == prefix.filter(p)[i];
                    assert(s[orig] == out[i]);
                    assert(s.last() == s[s.len() - 1]);
                }
            }
            assert(s.filter(p) =~= out);
        }
    }
}

/// Appending an entry under a fresh key keeps keys unique.
pub proof fn lemma_assoc_unique_push<K, V>(s: Seq<(K, V)>, e: (K, V))
    requires
        assoc_unique(s),
        assoc_find(s, e.0) is None,
    ensures
        assoc_unique(s.push(e)),
{
    lemma_assoc_find_none(s, e.0);
}

/// Two association sequences with the same keys in the same order succeed
/// or fail together on every lookup.
pub proof fn lemma_assoc_find_same_keys<K, V, W>(s: Seq<(K, V)>, t: Seq<(K, W)>, k: K)
    requires
        s.len() == t.len(),
        forall|i: int| 0 <= i < s.len() ==> s[i].0 == (#[trigger] t[i]).0,
    ensures
        (assoc_find(s, k) is Some) <==> (assoc_find(t, k) is Some),
    decreases s.len(),
{
    if s.len() > 0 {
        assert(s[0].0 == t[0].0);
        if s[0].0 != k {
            assert(forall|i: int|
                0 <= i < s.drop_first().len() ==> s.drop_first()[i].0 == (
                #[trigger] t.drop_first()[i]).0);
            lemma_assoc_find_same_keys(s.drop_first(), t.drop_first(), k);
        }
    }
}

/// The loop-invariant step for a forward scan: while the entry at `i` does
/// not match, the remainder decides the lookup.
pub proof fn lemma_assoc_find_skip_step<K, V>(s: Seq<(K, V)>, i: int, k: K)
    requires
        0 <= i < s.len(),
        s[i].0 != k,
    ensures
        assoc_find(s.skip(i), k) == assoc_find(s.skip(i + 1), k),
{
    assert(s.skip(i).drop_first() =~= s.skip(i + 1));
    assert(s.skip(i)[0] == s[i]);
}

/// A scan that reached `i` without deciding the lookup and now matches has
/// found the first matching entry.
pub proof fn lemma_assoc_find_skip_found<K, V>(s: Seq<(K, V)>, i: int, k: K)
    requires
        0 <= i < s.len(),
        s[i].0 == k,
        assoc_find(s.skip(i), k) == assoc_find(s, k),
    ensures
        assoc_find(s, k) == Some(s[i]),
{
    assert(s.skip(i)[0] == s[i]);
}

/// A scan that ran off the end found nothing.
pub proof fn lemma_assoc_find_skip_end<K, V>(s: Seq<(K, V)>, k: K)
    requires
        assoc_find(s.skip(s.len() as int), k) == assoc_find(s, k),
    ensures
        assoc_find(s, k) is None,
{
    assert(s.skip(s.len() as int) =~= Seq::<(K, V)>::empty());
}

} // verus!
