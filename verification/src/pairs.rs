//! Lists of (key, value) text pairs used as maps: each key at most once,
//! and a later insertion of a key replaces its value.
use vstd::prelude::*;
use crate::text::text_eq;

verus! {

/// No key occurs twice.
pub open spec fn keys_unique(s: Seq<(Seq<char>, Seq<char>)>) -> bool {
    forall|i: int, j: int| 0 <= i < j < s.len() ==> #[trigger] s[i].0 != #[trigger] s[j].0
}

/// The map that inserting the pairs one after the other, in order, builds:
/// a later pair replaces the value of an earlier one with the same key.
pub open spec fn pairs_map(s: Seq<(Seq<char>, Seq<char>)>) -> Map<Seq<char>, Seq<char>>
    decreases s.len(),
{
    if s.len() == 0 {
        Map::empty()
    } else {
        pairs_map(s.drop_last()).insert(s.last().0, s.last().1)
    }
}

/// Replacing the value of a pair, where keys are unique, inserts into the map.
pub proof fn lemma_pairs_map_update(
    s: Seq<(Seq<char>, Seq<char>)>,
    i: int,
    v: Seq<char>,
)
    requires
        keys_unique(s),
        0 <= i < s.len(),
    ensures
        pairs_map(s.update(i, (s[i].0, v))) == pairs_map(s).insert(s[i].0, v),
    decreases s.len(),
{
    let k = s[i].0;
    let t = s.update(i, (k, v));
    if i == s.len() - 1 {
        assert(t.drop_last() =~= s.drop_last());
        assert(pairs_map(t) =~= pairs_map(s).insert(k, v));
    } else {
        let d = s.drop_last();
        assert(t.drop_last() =~= d.update(i, (k, v)));
        assert(d[i] == s[i]);
        lemma_pairs_map_update(d, i, v);
        assert(s.last().0 != k);
        assert(pairs_map(t) =~= pairs_map(s).insert(k, v));
    }
}

/// Every key of the map is the key of some pair, and every pair's key is in it.
pub proof fn law_pairs_map_keys(s: Seq<(Seq<char>, Seq<char>)>)
    ensures
        forall|k: Seq<char>|
            #[trigger] pairs_map(s).dom().contains(k) <==> exists|i: int|
                0 <= i < s.len() && s[i].0 == k,
    decreases s.len(),
{
    if s.len() > 0 {
        let d = s.drop_last();
        law_pairs_map_keys(d);
        assert forall|k: Seq<char>|
            #[trigger] pairs_map(s).dom().contains(k) <==> exists|i: int|
                0 <= i < s.len() && s[i].0 == k by {
            if k == s.last().0 {
                assert(s[s.len() - 1].0 == k);
            } else {
                if pairs_map(d).dom().contains(k) {
                    let i = choose|i: int| 0 <= i < d.len() && d[i].0 == k;
                    assert(s[i] == d[i]);
                }
                if exists|i: int| 0 <= i < s.len() && s[i].0 == k {
                    let i = choose|i: int| 0 <= i < s.len() && s[i].0 == k;
                    assert(i < s.len() - 1);
                    assert(s[i] == d[i]);
                    assert(pairs_map(d).dom().contains(k));
                }
            }
        }
    }
}

/// Where keys are unique, the map gives each pair's value for its key.
pub proof fn law_pairs_map_values(s: Seq<(Seq<char>, Seq<char>)>, i: int)
    requires
        keys_unique(s),
        0 <= i < s.len(),
    ensures
        pairs_map(s).dom().contains(s[i].0),
        pairs_map(s)[s[i].0] == s[i].1,
    decreases s.len(),
{
    if i < s.len() - 1 {
        let d = s.drop_last();
        assert(d[i] == s[i]);
        law_pairs_map_values(d, i);
    }
}

/// Sets the value of key `k` to `v`: in place where `k` is present, else as a
/// new pair at the end.
pub fn upsert(pairs: &mut Vec<(String, String)>, k: String, v: String)
    requires
        keys_unique(old(pairs).deep_view()),
    ensures
        keys_unique(final(pairs).deep_view()),
        pairs_map(final(pairs).deep_view()) == pairs_map(old(pairs).deep_view()).insert(k@, v@),
{
    let ghost before = pairs.deep_view();
    let ghost kk = k@;
    let ghost vv = v@;
    let mut i: usize = 0;
    while i < pairs.len()
        invariant
            before == pairs.deep_view(),
            keys_unique(before),
            i <= before.len(),
            forall|m: int| 0 <= m < i ==> before[m].0 != kk,
            kk == k@,
            vv == v@,
            before == old(pairs).deep_view(),
        decreases pairs.len() - i,
    {
        if text_eq(pairs[i].0.as_str(), k.as_str()) {
            assert(before[i as int].0 == k@);
            pairs.set(i, (k, v));
            proof {
                lemma_pairs_map_update(before, i as int, vv);
                assert(pairs.deep_view() =~= before.update(i as int, (before[i as int].0, vv)));
                assert(pairs_map(pairs.deep_view()) == pairs_map(before).insert(kk, vv));
            }
            return;
        }
        assert(before[i as int].0 == pairs@[i as int].0@);
        i = i + 1;
    }
    pairs.push((k, v));
    assert(pairs.deep_view() =~= before.push((kk, vv)));
    assert(pairs.deep_view().drop_last() =~= before);
}

/// The pairs, with each key kept once holding the value of its last pair.
pub fn collect_pairs(input: Vec<(String, String)>) -> (r: Vec<(String, String)>)
    ensures
        keys_unique(r.deep_view()),
        pairs_map(r.deep_view()) == pairs_map(input.deep_view()),
{
    let ghost all = input.deep_view();
    let mut r: Vec<(String, String)> = Vec::new();
    let mut i: usize = 0;
    assert(all.take(0) =~= Seq::<(Seq<char>, Seq<char>)>::empty());
    while i < input.len()
        invariant
            all == input.deep_view(),
            i <= all.len(),
            keys_unique(r.deep_view()),
            pairs_map(r.deep_view()) == pairs_map(all.take(i as int)),
        decreases input.len() - i,
    {
        let k = input[i].0.clone();
        let v = input[i].1.clone();
        upsert(&mut r, k, v);
        assert(all.take(i + 1).drop_last() =~= all.take(i as int));
        i = i + 1;
    }
    assert(all.take(i as int) =~= all);
    r
}

} // verus!
