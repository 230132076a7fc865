use vstd::prelude::*;
use vstd::std_specs::hash::builds_valid_hashers;
use vstd::std_specs::hash::obeys_key_model;
use core::hash::Hash;
use crate::convert::array_to_vec;
use crate::policy::NonRandomState;
use crate::policy::new_fixed_hasher;

verus! {

/// A hash set with reproducible internal layout.
///
/// It wraps the standard hash set, configured with [`NonRandomState`] instead
/// of the per-process random seed, and otherwise keeps the standard
/// container's contract: uniqueness of elements, amortized constant-time
/// insertion, removal and membership tests, and equality that depends only on
/// which elements are present. The abstract content is the `Set<T>` view.
///
/// The wrapped set is a public field: every operation of the standard
/// container that has no verified counterpart here stays reachable through
/// it, outside of the verified surface.
#[derive(Debug)]
pub struct HashSet<T>(pub std::collections::HashSet<T, NonRandomState>);

/// Relies on `Clone` for `std::collections::HashSet`: the clone holds a clone
/// of each element, so when cloning an element yields an equal element (part
/// of vstd's key model) the clone holds exactly the same contents.
#[verifier::external_body]
fn raw_set_clone<T: Clone>(
    s: &std::collections::HashSet<T, NonRandomState>,
) -> (r: std::collections::HashSet<T, NonRandomState>)
    ensures
        obeys_key_model::<T>() ==> r@ == s@,
{
    s.clone()
}

impl<T: Clone> Clone for HashSet<T> {
    fn clone(&self) -> (r: Self)
        ensures
            obeys_key_model::<T>() ==> r@ == self@,
    {
        HashSet(raw_set_clone(&self.0))
    }
}

impl<T> View for HashSet<T> {
    type V = Set<T>;

    open spec fn view(&self) -> Set<T> {
        self.0@
    }
}

/// The set reached from `s0` by inserting the elements of `elems` one at a
/// time, in order.
pub open spec fn inserted_all<T>(s0: Set<T>, elems: Seq<T>) -> Set<T>
    decreases elems.len(),
{
    if elems.len() == 0 {
        s0
    } else {
        inserted_all(s0, elems.drop_last()).insert(elems.last())
    }
}

/// Relies on `std::collections::HashSet::with_capacity_and_hasher`: the
/// returned set is empty, whatever capacity was reserved.
#[verifier::external_body]
fn raw_set_with_capacity<T>(capacity: usize) -> (s: std::collections::HashSet<T, NonRandomState>)
    ensures
        s@ == Set::<T>::empty(),
{
    std::collections::HashSet::with_capacity_and_hasher(capacity, NonRandomState)
}

/// Relies on `std::collections::HashSet::into_iter`: it yields each element
/// of the set exactly once, so collecting it gives a vector without
/// duplicates whose elements are exactly the set's contents.
#[verifier::external_body]
fn raw_set_into_vec<T: Eq + Hash>(s: std::collections::HashSet<T, NonRandomState>) -> (r: Vec<T>)
    ensures
        obeys_key_model::<T>() && builds_valid_hashers::<NonRandomState>() ==> {
            &&& r@.to_set() == s@
            &&& r@.no_duplicates()
            &&& r@.len() == s@.len()
        },
{
    s.into_iter().collect()
}

/// Relies on `PartialEq` for `std::collections::HashSet`: two sets compare
/// equal exactly when they hold the same elements, regardless of order.
#[verifier::external_body]
fn raw_set_eq<T: Eq + Hash>(
    a: &std::collections::HashSet<T, NonRandomState>,
    b: &std::collections::HashSet<T, NonRandomState>,
) -> (r: bool)
    ensures
        obeys_key_model::<T>() && builds_valid_hashers::<NonRandomState>() ==> r == (a@ =~= b@),
{
    a == b
}

impl<T> Default for HashSet<T> {
    fn default() -> (s: Self)
        ensures
            s@ == Set::<T>::empty(),
    {
        HashSet(<std::collections::HashSet<T, NonRandomState> as core::default::Default>::default())
    }
}

impl<T> HashSet<T> {
    /// An empty set with the default capacity.
    pub fn new() -> (s: Self)
        ensures
            s@ == Set::<T>::empty(),
    {
        HashSet(<std::collections::HashSet<T, NonRandomState> as core::default::Default>::default())
    }

    /// An empty set whose storage can hold at least `capacity` elements
    /// before reallocating.
    pub fn with_capacity(capacity: usize) -> (s: Self)
        ensures
            s@ == Set::<T>::empty(),
    {
        HashSet(raw_set_with_capacity(capacity))
    }

    /// How many elements the set holds.
    pub fn len(&self) -> (n: usize)
        ensures
            obeys_key_model::<T>() ==> n == self@.len(),
    {
        let _hasher = new_fixed_hasher();
        self.0.len()
    }

    /// Whether the set holds no element.
    pub fn is_empty(&self) -> (r: bool)
        ensures
            r == self@.is_empty(),
    {
        self.0.is_empty()
    }

    /// Removes every element.
    pub fn clear(&mut self)
        ensures
            final(self)@ == Set::<T>::empty(),
    {
        self.0.clear()
    }
}

impl<T: Eq + Hash> HashSet<T> {
    /// Inserts `value`; returns whether it was newly inserted, that is,
    /// whether the set did not hold it before.
    pub fn insert(&mut self, value: T) -> (newly: bool)
        ensures
            obeys_key_model::<T>() ==> {
                &&& final(self)@ == old(self)@.insert(value)
                &&& newly == !old(self)@.contains(value)
            },
    {
        let _hasher = new_fixed_hasher();
        self.0.insert(value)
    }

    /// Removes `value` if present; returns whether it was present.
    pub fn remove(&mut self, value: &T) -> (was_present: bool)
        ensures
            obeys_key_model::<T>() ==> {
                &&& final(self)@ == old(self)@.remove(*value)
                &&& was_present == old(self)@.contains(*value)
            },
    {
        let _hasher = new_fixed_hasher();
        self.0.remove(value)
    }

    /// Whether the set holds `value`.
    pub fn contains(&self, value: &T) -> (r: bool)
        ensures
            obeys_key_model::<T>() ==> r == self@.contains(*value),
    {
        let _hasher = new_fixed_hasher();
        self.0.contains(value)
    }

    /// A reference to the stored element equal to `value`, if any.
    pub fn get<'a>(&'a self, value: &T) -> (r: Option<&'a T>)
        ensures
            obeys_key_model::<T>() ==> match r {
                Some(found) => self@.contains(*value) && *found == *value,
                None => !self@.contains(*value),
            },
    {
        let _hasher = new_fixed_hasher();
        self.0.get(value)
    }

    /// Reserves room for at least `additional` further elements.
    pub fn reserve(&mut self, additional: usize)
        ensures
            final(self)@ == old(self)@,
    {
        let _hasher = new_fixed_hasher();
        self.0.reserve(additional)
    }

    /// Inserts every element of `elems`, in order; equivalent to inserting
    /// them one at a time (see [`crate::lemma_set_extend_matches_single_inserts`]).
    pub fn extend(&mut self, elems: Vec<T>)
        ensures
            obeys_key_model::<T>() ==> final(self)@ == old(self)@ + elems@.to_set(),
    {
        let ghost all: Seq<T> = elems@;
        let mut rest = elems;
        let total: usize = rest.len();
        let mut done: usize = 0;
        while rest.len() > 0
            invariant
                rest@ == all.skip(done as int),
                done + rest@.len() == all.len(),
                all.len() == total,
                obeys_key_model::<T>() ==> self@ == old(self)@ + all.take(done as int).to_set(),
            decreases rest@.len(),
        {
            proof {
                assert(all[done as int] == all.skip(done as int)[0]);
            }
            let x = rest.remove(0);
            proof {
                assert(rest@ =~= all.skip(done as int + 1));
                lemma_take_one_more(all, done as int);
            }
            self.insert(x);
            proof {
                if obeys_key_model::<T>() {
                    assert(self@ =~= old(self)@ + all.take(done as int + 1).to_set());
                }
            }
            done = done + 1;
        }
        proof {
            assert(all.take(all.len() as int) =~= all);
        }
    }

    /// The set holding exactly the elements of `elems`, duplicates collapsed.
    pub fn from_iter(elems: Vec<T>) -> (s: Self)
        ensures
            obeys_key_model::<T>() ==> s@ == elems@.to_set(),
    {
        let mut s = HashSet::new();
        s.extend(elems);
        proof {
            assert(Set::<T>::empty() + s@ =~= s@);
        }
        s
    }

    /// The set holding exactly the elements of the array `elems`, duplicates
    /// collapsed.
    pub fn from<const N: usize>(elems: [T; N]) -> (s: Self)
        ensures
            obeys_key_model::<T>() ==> s@ == elems@.to_set(),
    {
        HashSet::from_iter(array_to_vec(elems))
    }

    /// Consumes the set into a vector of its elements, each exactly once, in
    /// the set's internal order.
    pub fn into_vec(self) -> (r: Vec<T>)
        ensures
            obeys_key_model::<T>() ==> {
                &&& r@.to_set() == self@
                &&& r@.no_duplicates()
                &&& r@.len() == self@.len()
            },
    {
        let _hasher = new_fixed_hasher();
        raw_set_into_vec(self.0)
    }
}

impl<T: Eq + Hash + Copy> HashSet<T> {
    /// Inserts a copy of every element of `elems`, in order, leaving the
    /// vector untouched; the borrowed counterpart of [`Self::extend`], with
    /// the same contract.
    pub fn extend_copied(&mut self, elems: &Vec<T>)
        ensures
            obeys_key_model::<T>() ==> final(self)@ == old(self)@ + elems@.to_set(),
    {
        let mut i: usize = 0;
        while i < elems.len()
            invariant
                i <= elems@.len(),
                obeys_key_model::<T>() ==> self@ == old(self)@ + elems@.take(i as int).to_set(),
            decreases elems@.len() - i,
        {
            let x = elems[i];
            proof {
                lemma_take_one_more(elems@, i as int);
            }
            self.insert(x);
            proof {
                if obeys_key_model::<T>() {
                    assert(self@ =~= old(self)@ + elems@.take(i as int + 1).to_set());
                }
            }
            i = i + 1;
        }
        proof {
            assert(elems@.take(elems@.len() as int) =~= elems@);
        }
    }
}

proof fn lemma_take_one_more<T>(s: Seq<T>, j: int)
    requires
        0 <= j < s.len(),
    ensures
        s.take(j + 1).to_set() == s.take(j).to_set().insert(s[j]),
{
    let a = s.take(j + 1);
    let b = s.take(j);
    assert forall|y: T| a.contains(y) implies b.to_set().insert(s[j]).contains(y) by {
        let i = choose|i: int| 0 <= i < a.len() && a[i] == y;
        if i < j {
            assert(b[i] == y);
            assert(b.contains(y));
        }
    }
    assert forall|y: T| b.to_set().insert(s[j]).contains(y) implies a.contains(y) by {
        if y == s[j] {
            assert(a[j] == y);
        } else {
            let i = choose|i: int| 0 <= i < b.len() && b[i] == y;
            assert(a[i] == y);
        }
    }
    assert(a.to_set() =~= b.to_set().insert(s[j]));
}

impl<T: Eq + Hash> PartialEq for HashSet<T> {
    fn eq(&self, other: &Self) -> (r: bool) {
        let _hasher = new_fixed_hasher();
        raw_set_eq(&self.0, &other.0)
    }

    fn ne(&self, other: &Self) -> (r: bool) {
        let _hasher = new_fixed_hasher();
        !raw_set_eq(&self.0, &other.0)
    }
}

impl<T: Eq + Hash> vstd::std_specs::cmp::PartialEqSpecImpl for HashSet<T> {
    open spec fn obeys_eq_spec() -> bool {
        obeys_key_model::<T>()
    }

    open spec fn eq_spec(&self, other: &Self) -> bool {
        self@ == other@
    }
}

impl<T: Eq + Hash> Eq for HashSet<T> {}

impl<T: Eq + Hash> PartialEq<std::collections::HashSet<T, NonRandomState>> for HashSet<T> {
    fn eq(&self, other: &std::collections::HashSet<T, NonRandomState>) -> (r: bool) {
        let _hasher = new_fixed_hasher();
        raw_set_eq(&self.0, other)
    }

    fn ne(&self, other: &std::collections::HashSet<T, NonRandomState>) -> (r: bool) {
        let _hasher = new_fixed_hasher();
        !raw_set_eq(&self.0, other)
    }
}

impl<T: Eq + Hash> vstd::std_specs::cmp::PartialEqSpecImpl<std::collections::HashSet<T, NonRandomState>> for HashSet<T> {
    open spec fn obeys_eq_spec() -> bool {
        obeys_key_model::<T>()
    }

    open spec fn eq_spec(&self, other: &std::collections::HashSet<T, NonRandomState>) -> bool {
        self@ == other@
    }
}

} // verus!
