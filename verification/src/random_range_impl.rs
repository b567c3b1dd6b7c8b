//! `RandomRange` for the scalar types: inclusive-range draws delegated to
//! the external uniform source.

use crate::random_traits::RandomRange;
use crate::rng::{
    uniform_i32_inclusive, uniform_i64_inclusive, uniform_u32_inclusive, uniform_u64_inclusive,
    uniform_usize_inclusive,
};
use vstd::prelude::*;

verus! {

impl RandomRange for u32 {
    open spec fn range_ok(low: u32, high: u32) -> bool {
        low <= high
    }

    open spec fn in_range(low: u32, high: u32, r: u32) -> bool {
        low <= r <= high
    }

    fn random_range(low: u32, high: u32) -> (r: u32) {
        uniform_u32_inclusive(low, high)
    }
}

impl RandomRange for u64 {
    open spec fn range_ok(low: u64, high: u64) -> bool {
        low <= high
    }

    open spec fn in_range(low: u64, high: u64, r: u64) -> bool {
        low <= r <= high
    }

    fn random_range(low: u64, high: u64) -> (r: u64) {
        uniform_u64_inclusive(low, high)
    }
}

impl RandomRange for usize {
    open spec fn range_ok(low: usize, high: usize) -> bool {
        low <= high
    }

    open spec fn in_range(low: usize, high: usize, r: usize) -> bool {
        low <= r <= high
    }

    fn random_range(low: usize, high: usize) -> (r: usize) {
        uniform_usize_inclusive(low, high)
    }
}

impl RandomRange for i32 {
    open spec fn range_ok(low: i32, high: i32) -> bool {
        low <= high
    }

    open spec fn in_range(low: i32, high: i32, r: i32) -> bool {
        low <= r <= high
    }

    fn random_range(low: i32, high: i32) -> (r: i32) {
        uniform_i32_inclusive(low, high)
    }
}

impl RandomRange for i64 {
    open spec fn range_ok(low: i64, high: i64) -> bool {
        low <= high
    }

    open spec fn in_range(low: i64, high: i64, r: i64) -> bool {
        low <= r <= high
    }

    fn random_range(low: i64, high: i64) -> (r: i64) {
        uniform_i64_inclusive(low, high)
    }
}

} // verus!
