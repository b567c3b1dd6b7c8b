//! `Random` for the scalar types, and uniform container selection for
//! `Vec`: one-line delegations to the external uniform source.

use crate::exact::clone_is_exact;
use crate::random_traits::{Random, RandomContainer};
use crate::rng::{
    uniform_bool, uniform_i32_inclusive, uniform_i64_inclusive, uniform_u32_inclusive,
    uniform_u64_inclusive, uniform_usize_inclusive,
};
use vstd::prelude::*;

verus! {

impl Random for bool {
    fn random() -> bool {
        uniform_bool()
    }
}

impl Random for u32 {
    fn random() -> u32 {
        uniform_u32_inclusive(0, u32::MAX)
    }
}

impl Random for u64 {
    fn random() -> u64 {
        uniform_u64_inclusive(0, u64::MAX)
    }
}

impl Random for usize {
    fn random() -> usize {
        uniform_usize_inclusive(0, usize::MAX)
    }
}

impl Random for i32 {
    fn random() -> i32 {
        uniform_i32_inclusive(i32::MIN, i32::MAX)
    }
}

impl Random for i64 {
    fn random() -> i64 {
        uniform_i64_inclusive(i64::MIN, i64::MAX)
    }
}

impl<T> RandomContainer<T> for Vec<T> where T: Clone {
    /// Uniform selection ranges over the vector's elements in order.
    open spec fn container_elems(&self) -> Seq<T> {
        self@
    }

    open spec fn container_inv(&self) -> bool {
        clone_is_exact::<T>()
    }

    fn element_count(&self) -> (n: usize) {
        self.len()
    }

    fn element_at(&self, index: usize) -> (e: T) {
        let value = self[index].clone();
        proof {
            assert(cloned::<T>(self@[index as int], value));
        }
        value
    }
}

} // verus!
