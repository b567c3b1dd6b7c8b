//! Random reordering of a container's elements.

use crate::random_traits::RandomContainer;
use vstd::prelude::*;

verus! {

/// A container whose elements can be randomly reordered. The shuffle
/// itself is the external source's; what is promised is that no element
/// is gained or lost.
pub trait Shuffle<T: Clone>: RandomContainer<T> {
    /// Reorders the elements in place; the collection of elements is
    /// unchanged.
    fn shuffle(&mut self)
        requires
            old(self).container_inv(),
        ensures
            final(self).container_inv(),
            final(self).container_elems().to_multiset() == old(
                self,
            ).container_elems().to_multiset(),
    ;

    /// A reordered copy; the original and the collection of its elements
    /// are unchanged.
    fn shuffled(&self) -> (r: Self)
        requires
            self.container_inv(),
        ensures
            r.container_inv(),
            r.container_elems().to_multiset() == self.container_elems().to_multiset(),
    ;
}

} // verus!
