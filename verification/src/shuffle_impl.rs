//! `Shuffle` for `Vec`, delegated to the external source's reordering.

use crate::rng::shuffle_in_place;
use crate::shuffle_trait::Shuffle;
use vstd::prelude::*;

verus! {

impl<T> Shuffle<T> for Vec<T> where T: Clone {
    fn shuffle(&mut self) {
        shuffle_in_place(self);
    }

    fn shuffled(&self) -> (r: Self) {
        let mut copy = self.clone();
        proof {
            assert(copy@ =~= self@);
        }
        shuffle_in_place(&mut copy);
        copy
    }
}

} // verus!
