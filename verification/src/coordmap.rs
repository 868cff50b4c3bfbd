use crate::ivec::IVec3;
use vstd::prelude::*;

verus! {

/// Interpretation of a sequence of key/value pairs as a map; later pairs win.
pub open spec fn pairs_to_map<V>(s: Seq<(IVec3, V)>) -> Map<IVec3, V>
    decreases s.len(),
{
    if s.len() == 0 {
        Map::empty()
    } else {
        pairs_to_map(s.drop_last()).insert(s.last().0, s.last().1)
    }
}

/// True when no key occurs twice, so each pair alone decides its key's value.
pub open spec fn unique_keys<V>(s: Seq<(IVec3, V)>) -> bool {
    forall|i: int, j: int| 0 <= i < j < s.len() ==> s[i].0 != s[j].0
}

/// A key is in the map exactly when some pair holds it.
pub proof fn lemma_pairs_domain<V>(s: Seq<(IVec3, V)>, c: IVec3)
    ensures
        pairs_to_map(s).contains_key(c) <==> exists|i: int| 0 <= i < s.len() && s[i].0 == c,
    decreases s.len(),
{
    if s.len() > 0 {
        lemma_pairs_domain(s.drop_last(), c);
        if s.last().0 == c {
            assert(s[s.len() - 1].0 == c);
        } else {
            if exists|i: int| 0 <= i < s.len() && s[i].0 == c {
                let i = choose|i: int| 0 <= i < s.len() && s[i].0 == c;
                assert(s.drop_last()[i].0 == c);
            }
            if pairs_to_map(s).contains_key(c) {
                let i = choose|i: int| 0 <= i < s.drop_last().len() && s.drop_last()[i].0 == c;
                assert(s[i].0 == c);
            }
        }
    }
}

/// With unique keys, each pair gives its key's value in the map.
pub proof fn lemma_pairs_index<V>(s: Seq<(IVec3, V)>, i: int)
    requires
        unique_keys(s),
        0 <= i < s.len(),
    ensures
        pairs_to_map(s).contains_key(s[i].0),
        pairs_to_map(s)[s[i].0] == s[i].1,
    decreases s.len(),
{
    if i < s.len() - 1 {
        assert(unique_keys(s.drop_last()));
        lemma_pairs_index(s.drop_last(), i);
        assert(s.last().0 != s[i].0);
    }
}

/// Appending a pair inserts its key.
pub proof fn lemma_pairs_push<V>(s: Seq<(IVec3, V)>, p: (IVec3, V))
    ensures
        pairs_to_map(s.push(p)) == pairs_to_map(s).insert(p.0, p.1),
{
    assert(s.push(p).drop_last() =~= s);
}

/// Overwriting the pair at a unique key updates that key alone.
pub proof fn lemma_pairs_update<V>(s: Seq<(IVec3, V)>, i: int, v: V)
    requires
        unique_keys(s),
        0 <= i < s.len(),
    ensures
        pairs_to_map(s.update(i, (s[i].0, v))) == pairs_to_map(s).insert(s[i].0, v),
        unique_keys(s.update(i, (s[i].0, v))),
    decreases s.len(),
{
    let u = s.update(i, (s[i].0, v));
    assert(forall|j: int| 0 <= j < s.len() ==> u[j].0 == s[j].0);
    if i == s.len() - 1 {
        assert(u.drop_last() =~= s.drop_last());
        assert(u.last() == (s[i].0, v));
        assert(pairs_to_map(u) == pairs_to_map(s.drop_last()).insert(s[i].0, v));
        assert(pairs_to_map(s.drop_last()).insert(s[i].0, v) =~= pairs_to_map(
            s.drop_last(),
        ).insert(s[i].0, s[i].1).insert(s[i].0, v));
    } else {
        assert(unique_keys(s.drop_last()));
        assert(u.drop_last() =~= s.drop_last().update(i, (s[i].0, v)));
        lemma_pairs_update(s.drop_last(), i, v);
        assert(u.last() == s.last());
        // the two inserted keys differ, so the inserts commute
        assert(s[i].0 != s.last().0);
        assert(pairs_to_map(s.drop_last()).insert(s[i].0, v).insert(s.last().0, s.last().1)
            =~= pairs_to_map(s.drop_last()).insert(s.last().0, s.last().1).insert(s[i].0, v));
    }
}

} // verus!
