use vstd::prelude::*;
use vstd::std_specs::hash::builds_valid_hashers;
use vstd::std_specs::hash::obeys_key_model;
use core::hash::Hash;
use crate::convert::array_to_vec;
use crate::policy::NonRandomState;
use crate::policy::eq_reflects_identity;
use crate::policy::new_fixed_hasher;

verus! {

/// A hash map with reproducible internal layout.
///
/// It wraps the standard hash map, configured with [`NonRandomState`] instead
/// of the per-process random seed, and otherwise keeps the standard
/// container's contract: unique keys, amortized constant-time insertion,
/// lookup and removal, and equality that depends only on which key→value
/// pairs are present. The abstract content is the `Map<K, V>` view.
///
/// The wrapped map is a public field: every operation of the standard
/// container that has no verified counterpart here stays reachable through
/// it, outside of the verified surface.
#[derive(Debug)]
pub struct HashMap<K, V>(pub std::collections::HashMap<K, V, NonRandomState>);

impl<K, V> View for HashMap<K, V> {
    type V = Map<K, V>;

    open spec fn view(&self) -> Map<K, V> {
        self.0@
    }
}

/// The map reached from `m` by inserting the key→value pairs of `entries`
/// one at a time, in order; a later pair with the same key overwrites an
/// earlier one.
pub open spec fn map_extended<K, V>(m: Map<K, V>, entries: Seq<(K, V)>) -> Map<K, V>
    decreases entries.len(),
{
    if entries.len() == 0 {
        m
    } else {
        map_extended(m, entries.drop_last()).insert(entries.last().0, entries.last().1)
    }
}

/// Whether some pair of `entries` has the key `k`.
pub open spec fn has_key<K, V>(entries: Seq<(K, V)>, k: K) -> bool {
    exists|i: int| 0 <= i < entries.len() && entries[i].0 == k
}

/// The value of the last pair of `entries` whose key is `k`.
pub open spec fn last_value_for<K, V>(entries: Seq<(K, V)>, k: K) -> V
    recommends
        has_key(entries, k),
    decreases entries.len(),
{
    if entries.len() == 0 {
        arbitrary()
    } else if entries.last().0 == k {
        entries.last().1
    } else {
        last_value_for(entries.drop_last(), k)
    }
}

/// Whether `vals` holds the value of each entry of `m` exactly once, in some
/// order: it is the value column of some duplicate-free enumeration of the
/// map's key→value pairs, so its multiset of values is fixed by `m`.
pub open spec fn one_value_per_entry<K, V>(m: Map<K, V>, vals: Seq<V>) -> bool {
    exists|entries: Seq<(K, V)>|
        {
            &&& entries.no_duplicates()
            &&& entries.to_set() == m.kv_pairs()
            &&& vals == entries.map_values(|p: (K, V)| p.1)
        }
}

/// Relies on `std::collections::HashMap::with_capacity_and_hasher`: the
/// returned map is empty, whatever capacity was reserved.
#[verifier::external_body]
fn raw_map_with_capacity<K, V>(capacity: usize) -> (m: std::collections::HashMap<K, V, NonRandomState>)
    ensures
        m@ == (Map::<K, V>::empty()),
{
    std::collections::HashMap::with_capacity_and_hasher(capacity, NonRandomState)
}

/// Relies on `std::collections::HashMap::into_keys`: it yields each key of
/// the map exactly once, so collecting it gives a vector without duplicates
/// whose elements are exactly the map's keys.
#[verifier::external_body]
fn raw_map_into_keys<K: Eq + Hash, V>(m: std::collections::HashMap<K, V, NonRandomState>) -> (r: Vec<K>)
    ensures
        obeys_key_model::<K>() && builds_valid_hashers::<NonRandomState>() ==> {
            &&& r@.to_set() == m@.dom()
            &&& r@.no_duplicates()
            &&& r@.len() == m@.len()
        },
{
    m.into_keys().collect()
}

/// Relies on `std::collections::HashMap::into_values`: it yields the value of
/// each entry of the map exactly once, so the result is the value column of
/// some enumeration of the map's entries.
#[verifier::external_body]
fn raw_map_into_values<K: Eq + Hash, V>(m: std::collections::HashMap<K, V, NonRandomState>) -> (r: Vec<V>)
    ensures
        obeys_key_model::<K>() && builds_valid_hashers::<NonRandomState>() ==> {
            &&& one_value_per_entry(m@, r@)
            &&& r@.to_set() == m@.values()
            &&& r@.len() == m@.len()
        },
{
    m.into_values().collect()
}

/// Relies on `std::collections::HashMap::into_iter`: it yields each key→value
/// entry of the map exactly once.
#[verifier::external_body]
fn raw_map_into_vec<K: Eq + Hash, V>(m: std::collections::HashMap<K, V, NonRandomState>) -> (r: Vec<(K, V)>)
    ensures
        obeys_key_model::<K>() && builds_valid_hashers::<NonRandomState>() ==> {
            &&& r@.to_set() == m@.kv_pairs()
            &&& r@.no_duplicates()
            &&& r@.len() == m@.len()
        },
{
    m.into_iter().collect()
}

/// Relies on `PartialEq` for `std::collections::HashMap`: two maps compare
/// equal exactly when they hold the same keys and, key for key, values that
/// `==` on the value type accepts — which is plain equality of the values
/// whenever `==` on that type is known to agree with it.
#[verifier::external_body]
fn raw_map_eq<K: Eq + Hash, V: PartialEq>(
    a: &std::collections::HashMap<K, V, NonRandomState>,
    b: &std::collections::HashMap<K, V, NonRandomState>,
) -> (r: bool)
    ensures
        obeys_key_model::<K>() && builds_valid_hashers::<NonRandomState>()
            && eq_reflects_identity::<V>() ==> r == (a@ =~= b@),
{
    a == b
}

impl<K, V> Default for HashMap<K, V> {
    fn default() -> (m: Self)
        ensures
            m@ == Map::<K, V>::empty(),
    {
        HashMap(<std::collections::HashMap<K, V, NonRandomState> as core::default::Default>::default())
    }
}

impl<K, V> HashMap<K, V> {
    /// An empty map with the default capacity.
    pub fn new() -> (m: Self)
        ensures
            m@ == Map::<K, V>::empty(),
    {
        HashMap(<std::collections::HashMap<K, V, NonRandomState> as core::default::Default>::default())
    }

    /// An empty map whose storage can hold at least `capacity` entries before
    /// reallocating.
    pub fn with_capacity(capacity: usize) -> (m: Self)
        ensures
            m@ == Map::<K, V>::empty(),
    {
        HashMap(raw_map_with_capacity(capacity))
    }

    /// How many entries the map holds.
    pub fn len(&self) -> (n: usize)
        ensures
            obeys_key_model::<K>() ==> n == self@.len(),
    {
        let _hasher = new_fixed_hasher();
        self.0.len()
    }

    /// Whether the map holds no entry.
    pub fn is_empty(&self) -> (r: bool)
        ensures
            r == self@.is_empty(),
    {
        self.0.is_empty()
    }

    /// Removes every entry.
    pub fn clear(&mut self)
        ensures
            final(self)@ == Map::<K, V>::empty(),
    {
        self.0.clear()
    }
}

impl<K: Eq + Hash, V> HashMap<K, V> {
    /// Inserts the pair `k → v`. If `k` was already present its value is
    /// replaced and the previous value is returned; the result says whether
    /// the key was newly inserted through `None`.
    pub fn insert(&mut self, k: K, v: V) -> (prev: Option<V>)
        ensures
            obeys_key_model::<K>() ==> {
                &&& final(self)@ == old(self)@.insert(k, v)
                &&& match prev {
                    Some(p) => old(self)@.contains_key(k) && p == old(self)@[k],
                    None => !old(self)@.contains_key(k),
                }
            },
    {
        let _hasher = new_fixed_hasher();
        self.0.insert(k, v)
    }

    /// Removes the entry with key `k` if present, returning its value.
    pub fn remove(&mut self, k: &K) -> (removed: Option<V>)
        ensures
            obeys_key_model::<K>() ==> {
                &&& final(self)@ == old(self)@.remove(*k)
                &&& match removed {
                    Some(v) => old(self)@.contains_key(*k) && v == old(self)@[*k],
                    None => !old(self)@.contains_key(*k),
                }
            },
    {
        let _hasher = new_fixed_hasher();
        self.0.remove(k)
    }

    /// A reference to the value stored under `k`, if any; never mutates.
    pub fn get<'a>(&'a self, k: &K) -> (r: Option<&'a V>)
        ensures
            obeys_key_model::<K>() ==> match r {
                Some(v) => self@.contains_key(*k) && *v == self@[*k],
                None => !self@.contains_key(*k),
            },
    {
        let _hasher = new_fixed_hasher();
        self.0.get(k)
    }

    /// Whether the map holds an entry with key `k`.
    pub fn contains_key(&self, k: &K) -> (r: bool)
        ensures
            obeys_key_model::<K>() ==> r == self@.contains_key(*k),
    {
        let _hasher = new_fixed_hasher();
        self.0.contains_key(k)
    }

    /// Reserves room for at least `additional` further entries.
    pub fn reserve(&mut self, additional: usize)
        ensures
            final(self)@ == old(self)@,
    {
        let _hasher = new_fixed_hasher();
        self.0.reserve(additional)
    }

    /// Inserts every pair of `entries`, in order; equivalent to inserting
    /// them one at a time, so a later pair with the same key wins (see
    /// [`crate::lemma_map_extend_matches_single_inserts`]).
    pub fn extend(&mut self, entries: Vec<(K, V)>)
        ensures
            obeys_key_model::<K>() ==> final(self)@ == map_extended(old(self)@, entries@),
    {
        let ghost all: Seq<(K, V)> = entries@;
        let mut rest = entries;
        let total: usize = rest.len();
        let mut done: usize = 0;
        while rest.len() > 0
            invariant
                rest@ == all.skip(done as int),
                done + rest@.len() == all.len(),
                all.len() == total,
                obeys_key_model::<K>() ==> self@ == map_extended(old(self)@, all.take(done as int)),
            decreases rest@.len(),
        {
            proof {
                assert(all[done as int] == all.skip(done as int)[0]);
            }
            let kv = rest.remove(0);
            let ghost prev_view = self@;
            proof {
                assert(rest@ =~= all.skip(done as int + 1));
                assert(all.take(done as int + 1).drop_last() =~= all.take(done as int));
            }
            let (k, v) = kv;
            self.insert(k, v);
            proof {
                if obeys_key_model::<K>() {
                    assert(map_extended(old(self)@, all.take(done as int + 1)) == map_extended(
                        old(self)@,
                        all.take(done as int),
                    ).insert(all[done as int].0, all[done as int].1));
                }
            }
            done = done + 1;
        }
        proof {
            assert(all.take(all.len() as int) =~= all);
        }
    }

    /// The map holding, for each key in `entries`, the value of the last pair
    /// with that key.
    pub fn from_iter(entries: Vec<(K, V)>) -> (m: Self)
        ensures
            obeys_key_model::<K>() ==> m@ == map_extended(Map::<K, V>::empty(), entries@),
    {
        let mut m = HashMap::new();
        m.extend(entries);
        m
    }

    /// The map holding, for each key in the array `entries`, the value of the
    /// last pair with that key.
    pub fn from<const N: usize>(entries: [(K, V); N]) -> (m: Self)
        ensures
            obeys_key_model::<K>() ==> m@ == map_extended(Map::<K, V>::empty(), entries@),
    {
        HashMap::from_iter(array_to_vec(entries))
    }

    /// Consumes the map into a vector of its keys, each exactly once, in the
    /// map's internal order.
    pub fn into_keys(self) -> (r: Vec<K>)
        ensures
            obeys_key_model::<K>() ==> {
                &&& r@.to_set() == self@.dom()
                &&& r@.no_duplicates()
                &&& r@.len() == self@.len()
            },
    {
        let _hasher = new_fixed_hasher();
        raw_map_into_keys(self.0)
    }

    /// Consumes the map into a vector holding the value of each entry exactly
    /// once, in the map's internal order.
    pub fn into_values(self) -> (r: Vec<V>)
        ensures
            obeys_key_model::<K>() ==> {
                &&& one_value_per_entry(self@, r@)
                &&& r@.to_set() == self@.values()
                &&& r@.len() == self@.len()
            },
    {
        let _hasher = new_fixed_hasher();
        raw_map_into_values(self.0)
    }

    /// Consumes the map into a vector of its key→value entries, each exactly
    /// once, in the map's internal order.
    pub fn into_vec(self) -> (r: Vec<(K, V)>)
        ensures
            obeys_key_model::<K>() ==> {
                &&& r@.to_set() == self@.kv_pairs()
                &&& r@.no_duplicates()
                &&& r@.len() == self@.len()
            },
    {
        let _hasher = new_fixed_hasher();
        raw_map_into_vec(self.0)
    }
}

impl<K: Eq + Hash + Copy, V: Copy> HashMap<K, V> {
    /// Inserts a copy of every pair of `entries`, in order, leaving the
    /// vector untouched; the borrowed counterpart of [`Self::extend`], with
    /// the same contract.
    pub fn extend_copied(&mut self, entries: &Vec<(K, V)>)
        ensures
            obeys_key_model::<K>() ==> final(self)@ == map_extended(old(self)@, entries@),
    {
        let mut i: usize = 0;
        while i < entries.len()
            invariant
                i <= entries@.len(),
                obeys_key_model::<K>() ==> self@ == map_extended(
                    old(self)@,
                    entries@.take(i as int),
                ),
            decreases entries@.len() - i,
        {
            let (k, v) = entries[i];
            proof {
                assert(entries@.take(i as int + 1).drop_last() =~= entries@.take(i as int));
            }
            self.insert(k, v);
            proof {
                if obeys_key_model::<K>() {
                    assert(map_extended(old(self)@, entries@.take(i as int + 1)) == map_extended(
                        old(self)@,
                        entries@.take(i as int),
                    ).insert(entries@[i as int].0, entries@[i as int].1));
                }
            }
            i = i + 1;
        }
        proof {
            assert(entries@.take(entries@.len() as int) =~= entries@);
        }
    }
}

impl<K: Clone, V: Clone> Clone for HashMap<K, V> {
    fn clone(&self) -> (r: Self)
        ensures
            r@ == self@,
    {
        HashMap(self.0.clone())
    }
}

impl<K: Eq + Hash, V: PartialEq> PartialEq for HashMap<K, V> {
    fn eq(&self, other: &Self) -> (r: bool) {
        let _hasher = new_fixed_hasher();
        raw_map_eq(&self.0, &other.0)
    }

    fn ne(&self, other: &Self) -> (r: bool) {
        let _hasher = new_fixed_hasher();
        !raw_map_eq(&self.0, &other.0)
    }
}

impl<K: Eq + Hash, V: PartialEq> vstd::std_specs::cmp::PartialEqSpecImpl for HashMap<K, V> {
    open spec fn obeys_eq_spec() -> bool {
        obeys_key_model::<K>() && eq_reflects_identity::<V>()
    }

    open spec fn eq_spec(&self, other: &Self) -> bool {
        self@ == other@
    }
}

impl<K: Eq + Hash, V: PartialEq> Eq for HashMap<K, V> {}

impl<K: Eq + Hash, V: PartialEq> PartialEq<std::collections::HashMap<K, V, NonRandomState>> for HashMap<K, V> {
    fn eq(&self, other: &std::collections::HashMap<K, V, NonRandomState>) -> (r: bool) {
        let _hasher = new_fixed_hasher();
        raw_map_eq(&self.0, other)
    }

    fn ne(&self, other: &std::collections::HashMap<K, V, NonRandomState>) -> (r: bool) {
        let _hasher = new_fixed_hasher();
        !raw_map_eq(&self.0, other)
    }
}

impl<K: Eq + Hash, V: PartialEq> vstd::std_specs::cmp::PartialEqSpecImpl<std::collections::HashMap<K, V, NonRandomState>> for HashMap<K, V> {
    open spec fn obeys_eq_spec() -> bool {
        obeys_key_model::<K>() && eq_reflects_identity::<V>()
    }

    open spec fn eq_spec(&self, other: &std::collections::HashMap<K, V, NonRandomState>) -> bool {
        self@ == other@
    }
}

} // verus!
