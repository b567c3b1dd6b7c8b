//! Traits for uniform and weight-proportional random selection.
//!
//! `Random` and `RandomRange` draw scalar values from the external
//! source. `RandomContainer` selects uniformly over a container's
//! elements; `RandomWeightedContainer` selects an element with
//! probability proportional to its weight, by the cumulative-weight
//! bucket walk. The selection logic lives in the provided methods and is
//! verified once, against the spec hooks each implementor fills in.

use crate::exact::clone_is_exact;
use crate::rng::{uniform_u32_inclusive, uniform_usize_inclusive};
use crate::table_model::{lemma_pick_bounds, lemma_pick_in_range, sum_weights, weighted_pick};
use vstd::prelude::*;

verus! {

/// A type whose values can be drawn uniformly from the external source.
pub trait Random: Sized {
    /// A random value.
    fn random() -> Self;
}

/// A type whose values can be drawn uniformly between two bounds.
pub trait RandomRange: Sized {
    /// Which pairs of bounds are acceptable to draw between.
    spec fn range_ok(low: Self, high: Self) -> bool;

    /// What the draw promises of its result for the given bounds.
    spec fn in_range(low: Self, high: Self, r: Self) -> bool;

    /// A random value between the bounds, inclusive.
    fn random_range(low: Self, high: Self) -> (r: Self)
        requires
            Self::range_ok(low, high),
        ensures
            Self::in_range(low, high, r),
    ;
}

/// A container whose elements can be selected uniformly at random.
pub trait RandomContainer<T: Clone>: Sized {
    /// The elements the container holds, in its own order.
    spec fn container_elems(&self) -> Seq<T>;

    /// What the container asks of its state and its element type for
    /// selection to be exact.
    spec fn container_inv(&self) -> bool;

    /// How many elements the container holds.
    fn element_count(&self) -> (n: usize)
        requires
            self.container_inv(),
        ensures
            n == self.container_elems().len(),
    ;

    /// An owned copy of the element at `index`.
    fn element_at(&self, index: usize) -> (e: T)
        requires
            self.container_inv(),
            index < self.container_elems().len(),
        ensures
            e == self.container_elems()[index as int],
    ;

    /// A uniformly random valid index, or nothing when the container is
    /// empty.
    fn random_index(&self) -> (r: Option<usize>)
        requires
            self.container_inv(),
        ensures
            r is Some <==> self.container_elems().len() > 0,
            r matches Some(i) ==> i < self.container_elems().len(),
    {
        let size = self.element_count();
        if size == 0 {
            None
        } else {
            Some(uniform_usize_inclusive(1, size) - 1)
        }
    }

    /// A uniformly random index together with the element there, or
    /// nothing when the container is empty.
    fn random_with_index(&self) -> (r: Option<(usize, T)>)
        requires
            self.container_inv(),
        ensures
            r is Some <==> self.container_elems().len() > 0,
            r matches Some(p) ==> p.0 < self.container_elems().len() && p.1
                == self.container_elems()[p.0 as int],
    {
        if let Some(idx) = self.random_index() {
            let item = self.element_at(idx);
            return Some((idx, item));
        }
        None
    }

    /// A uniformly random element, or nothing when the container is
    /// empty.
    fn random_element(&self) -> (r: Option<T>)
        requires
            self.container_inv(),
        ensures
            r is Some <==> self.container_elems().len() > 0,
            r matches Some(e) ==> self.container_elems().contains(e),
    {
        match self.random_with_index() {
            Some(p) => Some(p.1),
            None => None,
        }
    }

    /// A uniformly random element, or nothing when the container is
    /// empty.
    fn random(&self) -> (r: Option<T>)
        requires
            self.container_inv(),
        ensures
            r is Some <==> self.container_elems().len() > 0,
            r matches Some(e) ==> self.container_elems().contains(e),
    {
        self.random_element()
    }
}

/// A container that pairs each element with a weight and selects an
/// element with probability proportional to its weight.
pub trait RandomWeightedContainer<T: Clone>: Sized {
    /// The values, in the container's own order.
    spec fn wc_values(&self) -> Seq<T>;

    /// The weights, parallel to the values.
    spec fn wc_weights(&self) -> Seq<u32>;

    /// What the container asks of its state and its element type for
    /// weighted selection to be exact.
    spec fn wc_inv(&self) -> bool;

    /// The invariant keeps the two sequences parallel and cloning exact.
    proof fn wc_inv_facts(&self)
        requires
            self.wc_inv(),
        ensures
            self.wc_values().len() == self.wc_weights().len(),
            clone_is_exact::<T>(),
    ;

    /// The greatest draw the container resolves: the sum of its weights.
    fn max_weight(&self) -> (w: u32)
        requires
            self.wc_inv(),
        ensures
            w as int == sum_weights(self.wc_weights()),
    ;

    /// The weights, borrowed.
    fn weights(&self) -> (w: &Vec<u32>)
        requires
            self.wc_inv(),
        ensures
            w@ == self.wc_weights(),
    ;

    /// The values, borrowed.
    fn values(&self) -> (v: &Vec<T>)
        requires
            self.wc_inv(),
        ensures
            v@ == self.wc_values(),
    ;

    /// A uniform draw in `[0, max_weight]` inclusive, or nothing when the
    /// total weight is zero.
    fn random_weight(&self) -> (r: Option<u32>)
        requires
            self.wc_inv(),
        ensures
            r is Some <==> sum_weights(self.wc_weights()) != 0,
            r matches Some(w) ==> w <= sum_weights(self.wc_weights()),
    {
        let max = self.max_weight();
        if max == 0 {
            return None;
        }
        Some(uniform_u32_inclusive(0, max))
    }

    /// Resolves an externally supplied draw against the cumulative
    /// weights, walking them in storage order: the first entry whose
    /// weight is at least the remaining draw is selected; boundaries are
    /// inclusive at each step. Returns nothing when the draw exceeds the
    /// total weight, the total is zero, or the container is empty.
    fn weighted_random_with_weight(&self, weight: u32) -> (r: Option<T>)
        requires
            self.wc_inv(),
        ensures
            ({
                let ws = self.wc_weights();
                let total = sum_weights(ws);
                &&& (r is Some <==> weight <= total && total != 0 && ws.len() != 0)
                &&& (r is Some ==> r == Some(
                    self.wc_values()[weighted_pick(ws, weight).unwrap()],
                ))
            }),
    {
        proof {
            self.wc_inv_facts();
        }
        let ghost ws = self.wc_weights();
        let max = self.max_weight();
        let weight_vec = self.weights();
        let value_vec = self.values();
        if weight > max || max == 0 || weight_vec.len() == 0 || value_vec.len() == 0 {
            return None;
        }
        proof {
            lemma_pick_in_range(ws, weight);
            assert(ws.skip(0) =~= ws);
        }
        let mut rem = weight;
        let mut i: usize = 0;
        while i < weight_vec.len()
            invariant
                clone_is_exact::<T>(),
                ws == self.wc_weights(),
                weight_vec@ == ws,
                value_vec@ == self.wc_values(),
                ws.len() == self.wc_values().len(),
                i <= ws.len(),
                weight <= sum_weights(ws),
                sum_weights(ws) != 0,
                weighted_pick(ws, weight) is Some,
                i <= weighted_pick(ws, weight).unwrap() < ws.len(),
                weighted_pick(ws.skip(i as int), rem) == Some(
                    weighted_pick(ws, weight).unwrap() - i,
                ),
            decreases weight_vec.len() - i,
        {
            let ghost k = weighted_pick(ws, weight).unwrap();
            proof {
                assert(ws.skip(i as int)[0] == ws[i as int]);
            }
            if rem <= weight_vec[i] {
                proof {
                    assert(weighted_pick(ws.skip(i as int), rem) == Some(0int));
                    assert(k == i);
                }
                let value = value_vec[i].clone();
                proof {
                    assert(cloned::<T>(self.wc_values()[i as int], value));
                    assert(value == self.wc_values()[i as int]);
                    assert(weighted_pick(self.wc_weights(), weight).unwrap() == i as int);
                    assert(weight <= sum_weights(self.wc_weights()));
                    assert(sum_weights(self.wc_weights()) != 0);
                    assert(self.wc_weights().len() != 0);
                }
                return Some(value);
            }
            proof {
                assert(ws.skip(i as int).drop_first() =~= ws.skip(i + 1));
                assert(weighted_pick(ws.skip(i + 1), (rem - ws[i as int]) as u32) == Some(
                    k - i - 1,
                ));
                lemma_pick_bounds(ws.skip(i + 1), (rem - ws[i as int]) as u32);
            }
            rem = rem - weight_vec[i];
            i = i + 1;
        }
        proof {
            assert(ws.skip(ws.len() as int) =~= Seq::<u32>::empty());
            assert(false);
        }
        None
    }

    /// Weight-proportional selection: draws a weight uniformly in
    /// `[0, max_weight]` and resolves it by the bucket walk. Returns
    /// nothing exactly when the total weight is zero.
    fn weighted_random(&self) -> (r: Option<T>)
        requires
            self.wc_inv(),
        ensures
            r is Some <==> sum_weights(self.wc_weights()) != 0,
            r matches Some(v) ==> self.wc_values().contains(v),
            r matches Some(v) ==> exists|w: u32|
                {
                    &&& w <= sum_weights(self.wc_weights())
                    &&& #[trigger] weighted_pick(self.wc_weights(), w) is Some
                    &&& v == self.wc_values()[weighted_pick(self.wc_weights(), w).unwrap()]
                },
    {
        proof {
            self.wc_inv_facts();
        }
        if let Some(weight) = self.random_weight() {
            proof {
                if self.wc_weights().len() == 0 {
                    assert(sum_weights(self.wc_weights()) == 0);
                }
                lemma_pick_in_range(self.wc_weights(), weight);
            }
            return self.weighted_random_with_weight(weight);
        }
        None
    }
}

} // verus!
