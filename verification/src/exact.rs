//! Predicates on a value type's `==` and `clone`.
//!
//! The table stores arbitrary values and compares and copies them through
//! their `PartialEq` and `Clone` impls. Its contracts speak of logical
//! equality, so they ask that those impls agree with it; both predicates
//! hold of the primitive integer types.

use vstd::prelude::*;
use vstd::std_specs::cmp::PartialEqSpec;

verus! {

/// `clone` on `T` returns a value equal, in the logic, to its argument.
pub open spec fn clone_is_exact<T: Clone>() -> bool {
    forall|a: T, b: T| #[trigger] cloned::<T>(a, b) ==> b == a
}

/// `==` on `T` coincides with logical equality.
pub open spec fn eq_is_exact<T: PartialEq>() -> bool {
    &&& T::obeys_eq_spec()
    &&& forall|a: T, b: T| #[trigger] a.eq_spec(&b) <==> a == b
}

} // verus!
