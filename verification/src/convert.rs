use vstd::prelude::*;

verus! {

/// Relies on `<Vec<T> as From<[T; N]>>::from`: the returned vector holds
/// exactly the array's elements, in the array's order.
#[verifier::external_body]
pub(crate) fn array_to_vec<T, const N: usize>(elems: [T; N]) -> (v: Vec<T>)
    ensures
        v@ == elems@,
{
    Vec::from(elems)
}

} // verus!
