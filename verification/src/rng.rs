//! The trusted boundary to the external uniform random source.
//!
//! Every random draw the library makes goes through one of the wrappers
//! here; nothing else in the crate touches the source. Each wrapper
//! states only what holds of every outcome: a bound, or which elements a
//! shuffle keeps.

use vstd::prelude::*;

verus! {

/// Seeds the process-wide random source; every later draw in the process
/// follows from the seed.
///
/// Relies on fastrand::seed, which reseeds the thread-local generator.
#[verifier::external_body]
pub fn seed(seed: u64) {
    fastrand::seed(seed)
}

/// Relies on fastrand::bool: a draw of either truth value.
#[verifier::external_body]
pub(crate) fn uniform_bool() -> bool {
    fastrand::bool()
}

/// Relies on fastrand::u32 on an inclusive range: a draw between the
/// bounds. It panics only on an empty range, which the precondition
/// rules out.
#[verifier::external_body]
pub(crate) fn uniform_u32_inclusive(low: u32, high: u32) -> (r: u32)
    requires
        low <= high,
    ensures
        low <= r <= high,
{
    fastrand::u32(low..=high)
}

/// Relies on fastrand::u64 on an inclusive range: a draw between the
/// bounds. It panics only on an empty range, which the precondition
/// rules out.
#[verifier::external_body]
pub(crate) fn uniform_u64_inclusive(low: u64, high: u64) -> (r: u64)
    requires
        low <= high,
    ensures
        low <= r <= high,
{
    fastrand::u64(low..=high)
}

/// Relies on fastrand::usize on an inclusive range: a draw between the
/// bounds. It panics only on an empty range, which the precondition
/// rules out.
#[verifier::external_body]
pub(crate) fn uniform_usize_inclusive(low: usize, high: usize) -> (r: usize)
    requires
        low <= high,
    ensures
        low <= r <= high,
{
    fastrand::usize(low..=high)
}

/// Relies on fastrand::i32 on an inclusive range: a draw between the
/// bounds. It panics only on an empty range, which the precondition
/// rules out.
#[verifier::external_body]
pub(crate) fn uniform_i32_inclusive(low: i32, high: i32) -> (r: i32)
    requires
        low <= high,
    ensures
        low <= r <= high,
{
    fastrand::i32(low..=high)
}

/// Relies on fastrand::i64 on an inclusive range: a draw between the
/// bounds. It panics only on an empty range, which the precondition
/// rules out.
#[verifier::external_body]
pub(crate) fn uniform_i64_inclusive(low: i64, high: i64) -> (r: i64)
    requires
        low <= high,
    ensures
        low <= r <= high,
{
    fastrand::i64(low..=high)
}

/// Relies on fastrand::shuffle: a walk of in-place swaps, so the result
/// holds exactly the elements the vector held before, possibly reordered.
#[verifier::external_body]
pub(crate) fn shuffle_in_place<T>(items: &mut Vec<T>)
    ensures
        final(items)@.len() == old(items)@.len(),
        final(items)@.to_multiset() == old(items)@.to_multiset(),
{
    fastrand::shuffle(items.as_mut_slice())
}

} // verus!
