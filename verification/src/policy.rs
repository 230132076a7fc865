use vstd::prelude::*;
use vstd::std_specs::hash::builds_valid_hashers;
use core::hash::BuildHasher;
use std::collections::hash_map::DefaultHasher;

verus! {

/// A hasher-construction policy with no per-process random seed.
///
/// Every hasher this policy hands out starts from the same fixed initial
/// state, so feeding two such hashers the same bytes yields the same output
/// hash in every run and every process. A container configured with this
/// policy therefore places its entries into the same buckets — and iterates
/// them in the same order — across runs, at the price of forfeiting the
/// collision-attack protection that a randomized seed provides.
#[derive(Debug, Clone, Copy)]
pub struct NonRandomState;

/// Holds when `h` is a hasher in the one fixed initial state that
/// [`NonRandomState`] ever produces — no bytes written yet — and the policy
/// conforms to vstd's model of a valid hash builder: any two hashers it
/// builds agree on every write sequence and produce the same digest.
pub open spec fn fixed_initial_state(h: DefaultHasher) -> bool {
    &&& h@ == Seq::<Seq<u8>>::empty()
    &&& builds_valid_hashers::<NonRandomState>()
}

impl BuildHasher for NonRandomState {
    type Hasher = DefaultHasher;

    /// The policy's one operation: a fresh hasher with nothing written yet,
    /// in the fixed initial state that every call, in every process, starts
    /// from.
    fn build_hasher(&self) -> (h: DefaultHasher)
        ensures
            h@ == Seq::<Seq<u8>>::empty(),
    {
        DefaultHasher::new()
    }
}

impl Default for NonRandomState {
    fn default() -> (s: Self)
        ensures
            s == (NonRandomState {}),
    {
        NonRandomState
    }
}

/// Holds when `==` on `T` is known to agree exactly with logical equality:
/// `==` obeys its vstd specification, and that specification is equality
/// itself. Primitive types satisfy this; a type with a looser `PartialEq`
/// need not.
pub open spec fn eq_reflects_identity<T: PartialEq>() -> bool {
    &&& <T as vstd::std_specs::cmp::PartialEqSpec>::obeys_eq_spec()
    &&& forall|x: T, y: T|
        #[trigger] <T as vstd::std_specs::cmp::PartialEqSpec>::eq_spec(&x, &y) <==> x == y
}

/// Relies on `std::collections::hash_map::DefaultHasher::new`: every hasher
/// it returns is the same as every other, starting from the same fixed
/// initial state in every process, and its digest is a deterministic
/// function of the bytes written. Any two hashers that `NonRandomState`
/// builds therefore agree on every write sequence and digest — vstd's
/// `builds_valid_hashers` model. The container methods call this where their
/// proofs need that fact; the hasher itself is discarded.
#[verifier::external_body]
pub(crate) fn new_fixed_hasher() -> (h: DefaultHasher)
    ensures
        fixed_initial_state(h),
{
    DefaultHasher::new()
}

} // verus!
