//! Ordered key-value lists that behave as maps: a later value for a key replaces an earlier one.

use vstd::prelude::*;

verus! {

/// The characters of each key and value of a list of string pairs.
pub open spec fn pair_views(v: Seq<(String, String)>) -> Seq<(Seq<char>, Seq<char>)> {
    v.map_values(|p: (String, String)| (p.0@, p.1@))
}

/// No key occurs twice.
pub open spec fn distinct_keys<V>(ps: Seq<(Seq<char>, V)>) -> bool {
    forall|i: int, j: int| 0 <= i < j < ps.len() ==> ps[i].0 != ps[j].0
}

/// `ps` with the value of `k` set to `v`: in place where `k` occurs, appended where it
/// does not.
pub open spec fn upsert<V>(ps: Seq<(Seq<char>, V)>, k: Seq<char>, v: V) -> Seq<(Seq<char>, V)>
    decreases ps.len(),
{
    if ps.len() == 0 {
        seq![(k, v)]
    } else if ps[0].0 == k {
        seq![(k, v)] + ps.drop_first()
    } else {
        seq![ps[0]] + upsert(ps.drop_first(), k, v)
    }
}

/// The list that inserting each pair of `ps` in turn into an empty one gives.
pub open spec fn upsert_all<V>(ps: Seq<(Seq<char>, V)>) -> Seq<(Seq<char>, V)>
    decreases ps.len(),
{
    if ps.len() == 0 {
        Seq::empty()
    } else {
        upsert(upsert_all(ps.drop_last()), ps.last().0, ps.last().1)
    }
}

/// The map that a list of pairs stands for: the value of a key is the one at its last
/// occurrence.
pub open spec fn pairs_map<V>(ps: Seq<(Seq<char>, V)>) -> Map<Seq<char>, V>
    decreases ps.len(),
{
    if ps.len() == 0 {
        Map::empty()
    } else {
        pairs_map(ps.drop_last()).insert(ps.last().0, ps.last().1)
    }
}

/// Upserting where none of the first `i` keys is `k` keeps those `i` pairs in front.
pub proof fn lemma_upsert_skip<V>(ps: Seq<(Seq<char>, V)>, k: Seq<char>, v: V, i: int)
    requires
        0 <= i <= ps.len(),
        forall|j: int| 0 <= j < i ==> ps[j].0 != k,
    ensures
        upsert(ps, k, v) == ps.take(i) + upsert(ps.skip(i), k, v),
    decreases i,
{
    if i == 0 {
        assert(ps.take(0) =~= Seq::<(Seq<char>, V)>::empty());
        assert(ps.skip(0) =~= ps);
        assert(ps.take(0) + upsert(ps.skip(0), k, v) =~= upsert(ps, k, v));
    } else {
        lemma_upsert_skip(ps.drop_first(), k, v, i - 1);
        assert(ps.drop_first().take(i - 1) =~= ps.take(i).drop_first());
        assert(ps.drop_first().skip(i - 1) =~= ps.skip(i));
        assert(seq![ps[0]] + ps.take(i).drop_first() =~= ps.take(i));
        assert(upsert(ps, k, v) =~= ps.take(i) + upsert(ps.skip(i), k, v));
    }
}

/// Upserting a key that is absent appends it; upserting a key that is present replaces the
/// pair at its first occurrence.
pub proof fn lemma_upsert_cases<V>(ps: Seq<(Seq<char>, V)>, k: Seq<char>, v: V)
    ensures
        (forall|j: int| 0 <= j < ps.len() ==> ps[j].0 != k) ==> upsert(ps, k, v) == ps.push(
            (k, v),
        ),
        forall|j: int|
            0 <= j < ps.len() && #[trigger] ps[j].0 == k && (forall|m: int|
                0 <= m < j ==> ps[m].0 != k) ==> upsert(ps, k, v) == ps.update(j, (k, v)),
{
    if forall|j: int| 0 <= j < ps.len() ==> ps[j].0 != k {
        lemma_upsert_skip(ps, k, v, ps.len() as int);
        assert(ps.skip(ps.len() as int) =~= Seq::<(Seq<char>, V)>::empty());
        assert(upsert(ps, k, v) =~= ps.push((k, v)));
    }
    assert forall|j: int|
        0 <= j < ps.len() && #[trigger] ps[j].0 == k && (forall|m: int|
            0 <= m < j ==> ps[m].0 != k) implies upsert(ps, k, v) == ps.update(j, (k, v)) by {
        lemma_upsert_skip(ps, k, v, j);
        assert(ps.skip(j)[0].0 == k);
        assert(ps.skip(j).drop_first() =~= ps.skip(j + 1));
        assert(upsert(ps, k, v) =~= ps.update(j, (k, v)));
    }
}

/// Reading a key after an upsert gives the value written; the other keys keep theirs, and
/// no key is doubled.
pub proof fn lemma_upsert_is_map_insert<V>(ps: Seq<(Seq<char>, V)>, k: Seq<char>, v: V)
    requires
        distinct_keys(ps),
    ensures
        distinct_keys(upsert(ps, k, v)),
        pairs_map(upsert(ps, k, v)) == pairs_map(ps).insert(k, v),
{
    lemma_upsert_cases(ps, k, v);
    lemma_pairs_map_distinct(ps);
    let r = upsert(ps, k, v);
    if forall|j: int| 0 <= j < ps.len() ==> ps[j].0 != k {
        assert(r == ps.push((k, v)));
        assert(r.drop_last() =~= ps);
        assert(distinct_keys(r)) by {
            assert forall|i: int, j: int| 0 <= i < j < r.len() implies r[i].0 != r[j].0 by {
                if j == ps.len() {
                    assert(ps[i].0 != k);
                } else {
                    assert(r[i] == ps[i] && r[j] == ps[j]);
                }
            }
        }
    } else {
        let j = choose|j: int| 0 <= j < ps.len() && ps[j].0 == k;
        assert forall|m: int| 0 <= m < j implies ps[m].0 != k by {}
        assert(r == ps.update(j, (k, v)));
        assert(distinct_keys(r)) by {
            assert forall|a: int, b: int| 0 <= a < b < r.len() implies r[a].0 != r[b].0 by {
                assert(r[a].0 == ps[a].0 && r[b].0 == ps[b].0);
            }
        }
        lemma_pairs_map_distinct(r);
        assert(pairs_map(r) =~= pairs_map(ps).insert(k, v)) by {
            assert forall|key: Seq<char>| #[trigger] pairs_map(r).dom().contains(key)
                <==> pairs_map(ps).insert(k, v).dom().contains(key) by {
                if pairs_map(r).dom().contains(key) {
                    let i = choose|i: int| 0 <= i < r.len() && r[i].0 == key;
                    assert(ps[i].0 == key);
                }
                if pairs_map(ps).dom().contains(key) {
                    let i = choose|i: int| 0 <= i < ps.len() && ps[i].0 == key;
                    assert(r[i].0 == key);
                }
                if key == k {
                    assert(r[j].0 == key);
                }
            }
            assert forall|key: Seq<char>| #[trigger] pairs_map(r).dom().contains(key)
                implies pairs_map(r)[key] == pairs_map(ps).insert(k, v)[key] by {
                let i = choose|i: int| 0 <= i < r.len() && r[i].0 == key;
                assert(r[i].0 == ps[i].0);
                if i != j {
                    assert(r[i] == ps[i]);
                }
            }
        }
    }
}

/// For a list without doubled keys, the map holds exactly its pairs.
pub proof fn lemma_pairs_map_distinct<V>(ps: Seq<(Seq<char>, V)>)
    requires
        distinct_keys(ps),
    ensures
        forall|i: int|
            0 <= i < ps.len() ==> #[trigger] pairs_map(ps).dom().contains(ps[i].0) && pairs_map(
                ps,
            )[ps[i].0] == ps[i].1,
        forall|key: Seq<char>|
            #[trigger] pairs_map(ps).dom().contains(key) ==> exists|i: int|
                0 <= i < ps.len() && ps[i].0 == key,
    decreases ps.len(),
{
    if ps.len() > 0 {
        let t = ps.drop_last();
        lemma_pairs_map_distinct(t);
        assert forall|key: Seq<char>| #[trigger] pairs_map(ps).dom().contains(key) implies exists|
            i: int,
        | 0 <= i < ps.len() && ps[i].0 == key by {
            if key != ps.last().0 {
                assert(pairs_map(t).dom().contains(key));
                let i = choose|i: int| 0 <= i < t.len() && t[i].0 == key;
                assert(t[i] == ps[i]);
                assert(ps[i].0 == key);
            } else {
                assert(ps[ps.len() - 1].0 == key);
            }
        }
        assert forall|i: int| 0 <= i < ps.len() implies #[trigger] pairs_map(ps).dom().contains(
            ps[i].0,
        ) && pairs_map(ps)[ps[i].0] == ps[i].1 by {
            if i < ps.len() - 1 {
                assert(t[i] == ps[i]);
                assert(ps[i].0 != ps[ps.len() - 1].0);
                assert(pairs_map(t).dom().contains(t[i].0));
            }
        }
    }
}

/// Inserting pairs one by one keeps each key once, with its last value: the list stands
/// for the same map as the pairs it was built from.
pub proof fn lemma_upsert_all_is_last_value<V>(ps: Seq<(Seq<char>, V)>)
    ensures
        distinct_keys(upsert_all(ps)),
        pairs_map(upsert_all(ps)) == pairs_map(ps),
    decreases ps.len(),
{
    if ps.len() > 0 {
        lemma_upsert_all_is_last_value(ps.drop_last());
        lemma_upsert_is_map_insert(upsert_all(ps.drop_last()), ps.last().0, ps.last().1);
    }
}

/// Whether the key of `p` is `k`.
fn key_is(p: &(String, String), k: &String) -> (r: bool)
    ensures
        r == (p.0@ == k@),
{
    p.0 == *k
}

/// Sets the value of `k` to `v`: in place where `k` is already a key, appended otherwise.
pub fn upsert_pair(ps: &mut Vec<(String, String)>, k: String, v: String)
    ensures
        pair_views(final(ps)@) == upsert(pair_views(old(ps)@), k@, v@),
{
    let ghost old_views = pair_views(ps@);
    let mut i: usize = 0;
    while i < ps.len()
        invariant
            i <= ps@.len(),
            ps@ == old(ps)@,
            old_views == pair_views(ps@),
            forall|j: int| 0 <= j < i ==> old_views[j].0 != k@,
        decreases ps@.len() - i,
    {
        if key_is(&ps[i], &k) {
            proof {
                lemma_upsert_skip(old_views, k@, v@, i as int);
                assert(old_views.skip(i as int)[0].0 == k@);
            }
            ps.set(i, (k, v));
            assert(pair_views(ps@) =~= upsert(old_views, k@, v@));
            return;
        }
        i = i + 1;
    }
    proof {
        lemma_upsert_skip(old_views, k@, v@, i as int);
        assert(old_views.skip(i as int) =~= Seq::<(Seq<char>, Seq<char>)>::empty());
        assert(old_views.take(i as int) =~= old_views);
    }
    ps.push((k, v));
    assert(pair_views(ps@) =~= upsert(old_views, k@, v@));
}

/// The pairs with each key once, at its first position, with the value of its last pair.
pub fn merge_pairs(ps: &Vec<(String, String)>) -> (r: Vec<(String, String)>)
    ensures
        pair_views(r@) == upsert_all(pair_views(ps@)),
        distinct_keys(pair_views(r@)),
{
    let ghost v = pair_views(ps@);
    let mut merged: Vec<(String, String)> = Vec::new();
    let mut i: usize = 0;
    assert(v.take(0) =~= Seq::<(Seq<char>, Seq<char>)>::empty());
    assert(pair_views(merged@) =~= Seq::<(Seq<char>, Seq<char>)>::empty());
    while i < ps.len()
        invariant
            v == pair_views(ps@),
            i <= ps@.len(),
            pair_views(merged@) == upsert_all(v.take(i as int)),
        decreases ps@.len() - i,
    {
        assert(v.take(i + 1).drop_last() =~= v.take(i as int));
        let (k, x) = &ps[i];
        assert(v.take(i + 1).last() == (k@, x@));
        upsert_pair(&mut merged, k.clone(), x.clone());
        i = i + 1;
    }
    assert(v.take(i as int) =~= v);
    proof {
        lemma_upsert_all_is_last_value(v);
    }
    merged
}

} // verus!
