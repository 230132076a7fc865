use vstd::prelude::*;
use crate::map::has_key;
use crate::map::last_value_for;
use crate::map::map_extended;
use crate::set::inserted_all;

verus! {

/// Whether no two pairs of `entries` share a key.
pub open spec fn distinct_keys<K, V>(entries: Seq<(K, V)>) -> bool {
    forall|i: int, j: int| 0 <= i < j < entries.len() ==> entries[i].0 != entries[j].0
}

/// Law: extending a set with a sequence of elements is the same as inserting
/// them one at a time, in order — both amount to adding the sequence's
/// elements, duplicates collapsed, to the set.
pub proof fn lemma_set_extend_matches_single_inserts<T>(s0: Set<T>, elems: Seq<T>)
    ensures
        inserted_all(s0, elems) == s0 + elems.to_set(),
    decreases elems.len(),
{
    if elems.len() == 0 {
        assert(inserted_all(s0, elems) =~= s0 + elems.to_set());
    } else {
        let dl = elems.drop_last();
        let x = elems.last();
        lemma_set_extend_matches_single_inserts(s0, dl);
        assert(elems[elems.len() - 1] == x);
        assert forall|y: T| #[trigger] elems.contains(y) implies dl.contains(y) || y == x by {
            let i = choose|i: int| 0 <= i < elems.len() && elems[i] == y;
            if i < elems.len() - 1 {
                assert(dl[i] == y);
            }
        }
        assert forall|y: T| #[trigger] dl.contains(y) implies elems.contains(y) by {
            let i = choose|i: int| 0 <= i < dl.len() && dl[i] == y;
            assert(elems[i] == y);
        }
        assert(inserted_all(s0, elems) =~= s0 + elems.to_set());
    }
}

/// Law: a map extended with a sequence of pairs is the map reached by
/// inserting the first pair and then extending with the rest — so bulk
/// extension and repeated single insertion, front to back, agree.
pub proof fn lemma_map_extend_matches_single_inserts<K, V>(m: Map<K, V>, entries: Seq<(K, V)>)
    ensures
        entries.len() == 0 ==> map_extended(m, entries) == m,
        entries.len() > 0 ==> map_extended(m, entries) == map_extended(
            m.insert(entries[0].0, entries[0].1),
            entries.drop_first(),
        ),
    decreases entries.len(),
{
    if entries.len() == 1 {
        let e0 = entries[0];
        assert(entries.drop_last() =~= Seq::<(K, V)>::empty());
        assert(entries.drop_first() =~= Seq::<(K, V)>::empty());
        assert(entries.last() == e0);
        assert(map_extended(m, entries) == map_extended(m, entries.drop_last()).insert(
            entries.last().0,
            entries.last().1,
        ));
        assert(map_extended(m, entries.drop_last()) == m);
        assert(map_extended(m.insert(e0.0, e0.1), entries.drop_first()) == m.insert(e0.0, e0.1));
    } else if entries.len() > 1 {
        let e0 = entries[0];
        let dl = entries.drop_last();
        let ef = entries.drop_first();
        lemma_map_extend_matches_single_inserts(m, dl);
        assert(dl[0] == e0);
        assert(ef.drop_last() =~= dl.drop_first());
        assert(ef.last() == entries.last());
        assert(map_extended(m, entries) == map_extended(m, dl).insert(
            entries.last().0,
            entries.last().1,
        ));
        assert(map_extended(m, dl) == map_extended(m.insert(e0.0, e0.1), dl.drop_first()));
        assert(map_extended(m.insert(e0.0, e0.1), ef) == map_extended(
            m.insert(e0.0, e0.1),
            ef.drop_last(),
        ).insert(ef.last().0, ef.last().1));
    }
}

/// Law: two sequences holding the same elements with the same multiplicities
/// — that is, permutations of one another — collapse to the same set, so the
/// sets constructed from them are equal.
pub proof fn lemma_set_order_independent_construction<T>(elems1: Seq<T>, elems2: Seq<T>)
    requires
        elems1.to_multiset() == elems2.to_multiset(),
    ensures
        elems1.to_set() == elems2.to_set(),
{
    broadcast use vstd::seq_lib::group_to_multiset_ensures;

    assert forall|y: T| #[trigger] elems1.contains(y) implies elems2.contains(y) by {
        assert(elems1.to_multiset().count(y) > 0);
    }
    assert forall|y: T| #[trigger] elems2.contains(y) implies elems1.contains(y) by {
        assert(elems2.to_multiset().count(y) > 0);
    }
    assert(elems1.to_set() =~= elems2.to_set());
}

/// The value that a map built by `map_extended` holds under the key of a
/// pair of `entries`, when no two pairs share a key, is that pair's value.
proof fn lemma_distinct_pair_value<K, V>(m: Map<K, V>, entries: Seq<(K, V)>, p: (K, V))
    requires
        distinct_keys(entries),
        entries.contains(p),
    ensures
        map_extended(m, entries).contains_key(p.0),
        map_extended(m, entries)[p.0] == p.1,
    decreases entries.len(),
{
    let dl = entries.drop_last();
    let x = entries.last();
    if x == p {
    } else {
        let i = choose|i: int| 0 <= i < entries.len() && entries[i] == p;
        assert(i < entries.len() - 1);
        assert(dl[i] == p);
        assert(dl.contains(p));
        assert(x.0 != p.0);
        lemma_distinct_pair_value(m, dl, p);
    }
}

/// Law: two sequences of key→value pairs that are permutations of one
/// another and each give every key at most once build the same map from the
/// empty map — construction order does not matter.
pub proof fn lemma_map_order_independent_construction<K, V>(
    entries1: Seq<(K, V)>,
    entries2: Seq<(K, V)>,
)
    requires
        entries1.to_multiset() == entries2.to_multiset(),
        distinct_keys(entries1),
        distinct_keys(entries2),
    ensures
        map_extended(Map::<K, V>::empty(), entries1) == map_extended(
            Map::<K, V>::empty(),
            entries2,
        ),
{
    broadcast use vstd::seq_lib::group_to_multiset_ensures;

    let m1 = map_extended(Map::<K, V>::empty(), entries1);
    let m2 = map_extended(Map::<K, V>::empty(), entries2);
    assert forall|k: K| #[trigger] m1.contains_key(k) implies m2.contains_key(k) && m2[k] == m1[k] by {
        lemma_last_entry_wins(Map::<K, V>::empty(), entries1, k);
        let i = choose|i: int| 0 <= i < entries1.len() && entries1[i].0 == k;
        let p = entries1[i];
        assert(entries1.contains(p));
        assert(entries1.to_multiset().count(p) > 0);
        assert(entries2.contains(p));
        lemma_distinct_pair_value(Map::<K, V>::empty(), entries1, p);
        lemma_distinct_pair_value(Map::<K, V>::empty(), entries2, p);
    }
    assert forall|k: K| #[trigger] m2.contains_key(k) implies m1.contains_key(k) by {
        lemma_last_entry_wins(Map::<K, V>::empty(), entries2, k);
        let i = choose|i: int| 0 <= i < entries2.len() && entries2[i].0 == k;
        let p = entries2[i];
        assert(entries2.contains(p));
        assert(entries2.to_multiset().count(p) > 0);
        assert(entries1.contains(p));
        lemma_distinct_pair_value(Map::<K, V>::empty(), entries1, p);
    }
    assert(m1 =~= m2);
}

/// Law: in a map built by inserting a sequence of pairs in order, the last
/// pair with a given key wins. A key is present exactly when the base map or
/// some pair holds it; when a pair holds it, the stored value is that of the
/// last such pair; and keys no pair mentions keep their base-map value.
pub proof fn lemma_last_entry_wins<K, V>(m: Map<K, V>, entries: Seq<(K, V)>, k: K)
    ensures
        map_extended(m, entries).contains_key(k) <==> (m.contains_key(k) || has_key(entries, k)),
        has_key(entries, k) ==> map_extended(m, entries)[k] == last_value_for(entries, k),
        !has_key(entries, k) && m.contains_key(k) ==> map_extended(m, entries)[k] == m[k],
    decreases entries.len(),
{
    if entries.len() == 0 {
        assert(!has_key(entries, k));
    } else {
        let dl = entries.drop_last();
        let x = entries.last();
        lemma_last_entry_wins(m, dl, k);
        if x.0 == k {
            assert(entries[entries.len() - 1].0 == k);
            assert(has_key(entries, k));
        } else {
            if has_key(entries, k) {
                let i = choose|i: int| 0 <= i < entries.len() && entries[i].0 == k;
                assert(i < entries.len() - 1);
                assert(dl[i].0 == k);
                assert(has_key(dl, k));
            }
            if has_key(dl, k) {
                let i = choose|i: int| 0 <= i < dl.len() && dl[i].0 == k;
                assert(entries[i].0 == k);
                assert(has_key(entries, k));
            }
        }
    }
}

/// Law: inserting a pair `k → v` into a map and then removing `k` leaves a
/// map without `k`, equal to the original with `k` removed, and with exactly
/// one entry fewer than the map right after the insertion.
pub proof fn lemma_insert_then_remove_map<K, V>(m: Map<K, V>, k: K, v: V)
    requires
        m.dom().finite(),
    ensures
        !m.insert(k, v).remove(k).contains_key(k),
        m.insert(k, v).remove(k) == m.remove(k),
        m.insert(k, v).remove(k).len() == m.insert(k, v).len() - 1,
{
    assert(m.insert(k, v).remove(k) =~= m.remove(k));
    assert(m.insert(k, v).dom() == m.dom().insert(k));
    assert(m.insert(k, v).remove(k).dom() == m.dom().insert(k).remove(k));
}

/// Law: inserting an element into a set and then removing it leaves a set
/// without the element, equal to the original with it removed, and with
/// exactly one element fewer than the set right after the insertion.
pub proof fn lemma_insert_then_remove_set<T>(s: Set<T>, x: T)
    requires
        s.finite(),
    ensures
        !s.insert(x).remove(x).contains(x),
        s.insert(x).remove(x) == s.remove(x),
        s.insert(x).remove(x).len() == s.insert(x).len() - 1,
{
    assert(s.insert(x).remove(x) =~= s.remove(x));
}

} // verus!
