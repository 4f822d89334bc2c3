use vstd::prelude::*;

verus! {

/// The mathematical map described by a sequence of byte-string keyed pairs,
/// later pairs taking precedence. Both stateful components of this crate keep
/// their records in a vector with pairwise-distinct keys and use this function
/// as the abstraction to a `Map`.
pub open spec fn pairs_to_map<V>(s: Seq<(Seq<u8>, V)>) -> Map<Seq<u8>, V>
    decreases s.len(),
{
    if s.len() == 0 {
        Map::empty()
    } else {
        pairs_to_map(s.drop_last()).insert(s.last().0, s.last().1)
    }
}

/// No two pairs of the sequence share a key.
pub open spec fn unique_keys<V>(s: Seq<(Seq<u8>, V)>) -> bool {
    forall|i: int, j: int| 0 <= i < j < s.len() ==> s[i].0 != s[j].0
}

/// The abstract map holds a key exactly when some pair carries it.
pub proof fn lemma_pairs_to_map_contains<V>(s: Seq<(Seq<u8>, V)>, k: Seq<u8>)
    ensures
        pairs_to_map(s).contains_key(k) <==> exists|i: int| 0 <= i < s.len() && s[i].0 == k,
    decreases s.len(),
{
    if s.len() > 0 {
        lemma_pairs_to_map_contains(s.drop_last(), k);
        if s.last().0 == k {
            assert(s[s.len() - 1].0 == k);
        } else if pairs_to_map(s).contains_key(k) {
            let i = choose|i: int| 0 <= i < s.drop_last().len() && s.drop_last()[i].0 == k;
            assert(s[i].0 == k);
        } else if exists|i: int| 0 <= i < s.len() && s[i].0 == k {
            let i = choose|i: int| 0 <= i < s.len() && s[i].0 == k;
            assert(s.drop_last()[i].0 == k);
        }
    }
}

/// With pairwise-distinct keys, the pair at any position gives the map's value
/// at its key.
pub proof fn lemma_pairs_to_map_get<V>(s: Seq<(Seq<u8>, V)>, i: int)
    requires
        unique_keys(s),
        0 <= i < s.len(),
    ensures
        pairs_to_map(s).contains_key(s[i].0),
        pairs_to_map(s)[s[i].0] == s[i].1,
    decreases s.len(),
{
    lemma_pairs_to_map_contains(s, s[i].0);
    if i < s.len() - 1 {
        assert(s.drop_last()[i] == s[i]);
        lemma_pairs_to_map_get(s.drop_last(), i);
    }
}

/// Appending a pair inserts its binding.
pub proof fn lemma_pairs_to_map_push<V>(s: Seq<(Seq<u8>, V)>, p: (Seq<u8>, V))
    ensures
        pairs_to_map(s.push(p)) == pairs_to_map(s).insert(p.0, p.1),
{
    assert(s.push(p).drop_last() =~= s);
    assert(s.push(p).last() == p);
}

/// Removing the one pair that carries a key removes its binding.
pub proof fn lemma_pairs_to_map_remove<V>(s: Seq<(Seq<u8>, V)>, i: int)
    requires
        unique_keys(s),
        0 <= i < s.len(),
    ensures
        pairs_to_map(s.remove(i)) == pairs_to_map(s).remove(s[i].0),
    decreases s.len(),
{
    let k = s[i].0;
    if i == s.len() - 1 {
        assert(s.remove(i) =~= s.drop_last());
        lemma_pairs_to_map_contains(s.drop_last(), k);
        assert(!pairs_to_map(s.drop_last()).contains_key(k));
        assert(pairs_to_map(s.drop_last()).insert(k, s[i].1).remove(k) =~= pairs_to_map(
            s.drop_last(),
        ));
    } else {
        let t = s.drop_last();
        assert(s.remove(i).drop_last() =~= t.remove(i));
        assert(s.remove(i).last() == s.last());
        lemma_pairs_to_map_remove(t, i);
        assert(t[i] == s[i]);
        assert(s.last().0 != k);
        assert(pairs_to_map(t).remove(k).insert(s.last().0, s.last().1) =~= pairs_to_map(
            t,
        ).insert(s.last().0, s.last().1).remove(k));
    }
}

/// Overwriting the value of the one pair that carries a key re-binds the key.
pub proof fn lemma_pairs_to_map_update<V>(s: Seq<(Seq<u8>, V)>, i: int, v: V)
    requires
        unique_keys(s),
        0 <= i < s.len(),
    ensures
        pairs_to_map(s.update(i, (s[i].0, v))) == pairs_to_map(s).insert(s[i].0, v),
    decreases s.len(),
{
    let k = s[i].0;
    if i == s.len() - 1 {
        assert(s.update(i, (k, v)).drop_last() =~= s.drop_last());
        assert(s.update(i, (k, v)).last() == (k, v));
        assert(pairs_to_map(s.drop_last()).insert(k, s[i].1).insert(k, v) =~= pairs_to_map(
            s.drop_last(),
        ).insert(k, v));
    } else {
        let t = s.drop_last();
        assert(s.update(i, (k, v)).drop_last() =~= t.update(i, (k, v)));
        assert(s.update(i, (k, v)).last() == s.last());
        assert(t[i] == s[i]);
        lemma_pairs_to_map_update(t, i, v);
        assert(s.last().0 != k);
        assert(pairs_to_map(t).insert(k, v).insert(s.last().0, s.last().1) =~= pairs_to_map(
            t,
        ).insert(s.last().0, s.last().1).insert(k, v));
    }
}

/// Pairwise-distinct keys stay pairwise-distinct when a pair's value is
/// overwritten in place.
pub proof fn lemma_unique_keys_update<V>(s: Seq<(Seq<u8>, V)>, i: int, v: V)
    requires
        unique_keys(s),
        0 <= i < s.len(),
    ensures
        unique_keys(s.update(i, (s[i].0, v))),
{
}

/// Mapping a function over a sequence commutes with appending an element.
pub proof fn lemma_map_values_push<A, B>(s: Seq<A>, f: spec_fn(A) -> B, x: A)
    ensures
        s.push(x).map_values(f) =~= s.map_values(f).push(f(x)),
{
}

/// Mapping a function over a sequence commutes with removing an element.
pub proof fn lemma_map_values_remove<A, B>(s: Seq<A>, f: spec_fn(A) -> B, i: int)
    requires
        0 <= i < s.len(),
    ensures
        s.remove(i).map_values(f) =~= s.map_values(f).remove(i),
{
    assert forall|j: int| 0 <= j < s.remove(i).len() implies s.remove(i).map_values(f)[j]
        == s.map_values(f).remove(i)[j] by {
        if j < i {
            assert(s.remove(i)[j] == s[j]);
        } else {
            assert(s.remove(i)[j] == s[j + 1]);
        }
    }
}

/// Mapping a function over a sequence commutes with overwriting an element.
pub proof fn lemma_map_values_update<A, B>(s: Seq<A>, f: spec_fn(A) -> B, i: int, x: A)
    requires
        0 <= i < s.len(),
    ensures
        s.update(i, x).map_values(f) =~= s.map_values(f).update(i, f(x)),
{
}

/// A sequence of pairwise-distinct keys, none of them `k`, stays
/// pairwise-distinct when a pair keyed by `k` is appended.
pub proof fn lemma_unique_keys_push<V>(s: Seq<(Seq<u8>, V)>, p: (Seq<u8>, V))
    requires
        unique_keys(s),
        forall|i: int| 0 <= i < s.len() ==> s[i].0 != p.0,
    ensures
        unique_keys(s.push(p)),
{
}

/// Pairwise-distinct keys stay pairwise-distinct when a pair is removed.
pub proof fn lemma_unique_keys_remove<V>(s: Seq<(Seq<u8>, V)>, i: int)
    requires
        unique_keys(s),
        0 <= i < s.len(),
    ensures
        unique_keys(s.remove(i)),
{
    assert forall|p: int, q: int| 0 <= p < q < s.remove(i).len() implies s.remove(i)[p].0
        != s.remove(i)[q].0 by {
        let p0 = if p < i { p } else { p + 1 };
        let q0 = if q < i { q } else { q + 1 };
        assert(s.remove(i)[p] == s[p0]);
        assert(s.remove(i)[q] == s[q0]);
    }
}

} // verus!
