//! A table that pairs each distinct value with a 32-bit weight and
//! supports weight-proportional selection.
//!
//! Values are kept in insertion order in one sequence, their weights in a
//! parallel sequence, and the sum of the weights is cached. Inserting an
//! existing value replaces its weight (last-wins); merging two tables adds
//! weights of common values.

use crate::exact::{clone_is_exact, eq_is_exact};
use crate::random_traits::{RandomContainer, RandomWeightedContainer};
use crate::table_model::{
    inserts_fit, lemma_add_all_snoc, lemma_add_weight_model_wf, lemma_index_of_unique,
    lemma_insert_all_snoc, lemma_insert_model_wf, lemma_pick_bounds, lemma_pick_in_range,
    lemma_remove_model_wf, lemma_sum_nonneg, lemma_sum_push, lemma_sum_split, lemma_sum_update,
    lemma_weight_le_sum, sum_weights, weighted_pick, TableModel,
};
use vstd::prelude::*;

verus! {

/// A weighted table: parallel vectors of values and weights, with the sum
/// of the weights cached.
///
/// Entries keep their insertion order; no two entries hold equal values.
/// Inserting a value that is already present replaces its weight rather
/// than appending.
#[derive(Clone, Debug)]
pub struct WeightedTable<T> where T: PartialEq + Clone {
    weights: Vec<u32>,
    total_weight: u32,
    values: Vec<T>,
}

impl<T: PartialEq + Clone> View for WeightedTable<T> {
    type V = TableModel<T>;

    closed spec fn view(&self) -> TableModel<T> {
        TableModel { vals: self.values@, wts: self.weights@, total: self.total_weight }
    }
}

impl<T> WeightedTable<T> where T: PartialEq + Clone {
    /// An empty table with total weight zero.
    pub fn new() -> (r: Self)
        ensures
            r@ == TableModel::<T>::empty(),
            r@.wf(),
    {
        let r = Self { weights: Vec::<u32>::new(), total_weight: 0, values: Vec::<T>::new() };
        proof {
            assert(r@ =~= TableModel::<T>::empty());
        }
        r
    }

    /// The index of the first entry equal to `value`, if any.
    fn position_of(&self, value: &T) -> (r: Option<usize>)
        requires
            eq_is_exact::<T>(),
        ensures
            match r {
                Some(i) => {
                    &&& i < self@.vals.len()
                    &&& self@.vals[i as int] == *value
                    &&& forall|j: int| 0 <= j < i ==> self@.vals[j] != *value
                },
                None => !self@.contains_value(*value),
            },
    {
        let mut i: usize = 0;
        while i < self.values.len()
            invariant
                eq_is_exact::<T>(),
                i <= self.values.len(),
                forall|j: int| 0 <= j < i ==> self.values@[j] != *value,
            decreases self.values.len() - i,
        {
            if self.values[i] == *value {
                return Some(i);
            }
            i += 1;
        }
        None
    }

    /// Inserts `value` with `weight`. An existing equal value keeps its
    /// slot and has its weight replaced; a new value is appended. The
    /// caller keeps the new total within 32 bits.
    pub fn insert(&mut self, value: T, weight: u32)
        requires
            eq_is_exact::<T>(),
            old(self)@.wf(),
            old(self)@.total_after_insert(value, weight) <= u32::MAX,
        ensures
            final(self)@ == old(self)@.insert_model(value, weight),
            final(self)@.wf(),
    {
        proof {
            lemma_insert_model_wf(old(self)@, value, weight);
        }
        match self.position_of(&value) {
            Some(index) => {
                proof {
                    lemma_index_of_unique(self@, value, index as int);
                    lemma_weight_le_sum(self@.wts, index as int);
                }
                let old_weight = self.weights[index];
                self.weights[index] = weight;
                self.total_weight = self.total_weight - old_weight + weight;
                proof {
                    assert(final(self)@ =~= old(self)@.insert_model(value, weight));
                }
            },
            None => {
                self.weights.push(weight);
                self.total_weight = self.total_weight + weight;
                self.values.push(value);
                proof {
                    assert(final(self)@ =~= old(self)@.insert_model(value, weight));
                }
            },
        }
    }

    /// Removes `value` if present, subtracting its weight from the total;
    /// a no-op if absent. The remaining entries keep their order.
    pub fn remove(&mut self, value: &T)
        requires
            eq_is_exact::<T>(),
            old(self)@.wf(),
        ensures
            final(self)@ == old(self)@.remove_model(*value),
            final(self)@.wf(),
    {
        proof {
            lemma_remove_model_wf(old(self)@, *value);
        }
        match self.position_of(value) {
            Some(index) => {
                proof {
                    lemma_index_of_unique(self@, *value, index as int);
                    lemma_weight_le_sum(self@.wts, index as int);
                }
                self.total_weight = self.total_weight - self.weights[index];
                self.weights.remove(index);
                self.values.remove(index);
                proof {
                    assert(final(self)@ =~= old(self)@.remove_model(*value));
                }
            },
            None => {},
        }
    }

    /// Empties the table and resets the total weight.
    pub fn clear(&mut self)
        ensures
            final(self)@ == TableModel::<T>::empty(),
            final(self)@.wf(),
    {
        self.weights.clear();
        self.total_weight = 0;
        self.values.clear();
        proof {
            assert(final(self)@ =~= TableModel::<T>::empty());
        }
    }

    /// Builds a table by inserting each pair in order; a later pair with
    /// an equal value overwrites the earlier weight (last-wins). The
    /// caller keeps every intermediate total within 32 bits.
    pub fn from_vec(vec: Vec<(T, u32)>) -> (r: Self)
        requires
            eq_is_exact::<T>(),
            clone_is_exact::<T>(),
            inserts_fit(TableModel::<T>::empty(), vec@),
        ensures
            r@ == TableModel::<T>::from_pairs_model(vec@),
            r@.wf(),
    {
        let mut table = Self::new();
        let ghost pairs = vec@;
        proof {
            assert(pairs.skip(0) =~= pairs);
            assert(pairs.take(0) =~= Seq::<(T, u32)>::empty());
        }
        let mut j: usize = 0;
        while j < vec.len()
            invariant
                eq_is_exact::<T>(),
                clone_is_exact::<T>(),
                j <= vec.len(),
                vec@ == pairs,
                table@ == TableModel::<T>::empty().insert_all_model(pairs.take(j as int)),
                table@.wf(),
                inserts_fit(table@, pairs.skip(j as int)),
            decreases vec.len() - j,
        {
            let pair = &vec[j];
            let value = pair.0.clone();
            let weight = pair.1;
            proof {
                assert(cloned::<T>(pairs[j as int].0, value));
                assert(pairs.skip(j as int)[0] == pairs[j as int]);
                assert(value == pairs[j as int].0);
            }
            table.insert(value, weight);
            proof {
                assert(pairs.take(j + 1) =~= pairs.take(j as int).push(pairs[j as int]));
                lemma_insert_all_snoc(
                    TableModel::<T>::empty(),
                    pairs.take(j as int),
                    pairs[j as int],
                );
                assert(pairs.skip(j as int).drop_first() =~= pairs.skip(j + 1));
            }
            j += 1;
        }
        proof {
            assert(pairs.take(vec@.len() as int) =~= pairs);
        }
        table
    }

    /// The entry at `index` as an owned pair, or nothing when the index
    /// is out of range.
    pub fn get_entry(&self, index: usize) -> (r: Option<(T, u32)>)
        requires
            clone_is_exact::<T>(),
            self@.lens_ok(),
        ensures
            index < self@.len() ==> r == Some(
                (self@.vals[index as int], self@.wts[index as int]),
            ),
            index >= self@.len() ==> r is None,
    {
        if index < self.values.len() {
            let value = self.values[index].clone();
            proof {
                assert(cloned::<T>(self@.vals[index as int], value));
            }
            Some((value, self.weights[index]))
        } else {
            None
        }
    }

    /// The entry at `index` as a borrowed pair, or nothing when the index
    /// is out of range.
    pub fn get_entry_ref(&self, index: usize) -> (r: Option<(&T, &u32)>)
        requires
            self@.lens_ok(),
        ensures
            index < self@.len() ==> (r matches Some(e) && *e.0 == self@.vals[index as int]
                && *e.1 == self@.wts[index as int]),
            index >= self@.len() ==> r is None,
    {
        if index < self.values.len() {
            Some((&self.values[index], &self.weights[index]))
        } else {
            None
        }
    }

    /// The entry at `index` as a mutably borrowed pair, or nothing when
    /// the index is out of range. Writing through the handles edits the
    /// entry in place; the cached total is left untouched, so it is the
    /// caller's responsibility when the weight changes.
    pub fn get_entry_mut(&mut self, index: usize) -> (r: Option<(&mut T, &mut u32)>)
        requires
            old(self)@.lens_ok(),
        ensures
            index >= old(self)@.len() ==> r is None && *final(self) == *old(self),
            index < old(self)@.len() ==> r is Some && {
                let pv = r.unwrap().0;
                let pw = r.unwrap().1;
                &&& *pv == old(self)@.vals[index as int]
                &&& *pw == old(self)@.wts[index as int]
                &&& final(self)@.vals == old(self)@.vals.update(index as int, *final(pv))
                &&& final(self)@.wts == old(self)@.wts.update(index as int, *final(pw))
                &&& final(self)@.total == old(self)@.total
            },
    {
        if index < self.values.len() {
            Some((&mut self.values[index], &mut self.weights[index]))
        } else {
            None
        }
    }

    /// The weight stored for `value`, if present.
    pub fn get_weight(&self, value: &T) -> (r: Option<u32>)
        requires
            eq_is_exact::<T>(),
            self@.wf(),
        ensures
            r is Some <==> self@.contains_value(*value),
            forall|i: int|
                0 <= i < self@.len() && self@.vals[i] == *value ==> r == Some(self@.wts[i]),
    {
        match self.position_of(value) {
            Some(index) => {
                proof {
                    lemma_index_of_unique(self@, *value, index as int);
                }
                Some(self.weights[index])
            },
            None => None,
        }
    }

    /// A mutable handle to the weight stored for `value`, if present.
    /// Writing through the handle changes that entry's weight in place
    /// but leaves the cached total untouched: keeping the total consistent
    /// is the caller's responsibility.
    pub fn get_weight_mut(&mut self, value: &T) -> (r: Option<&mut u32>)
        requires
            eq_is_exact::<T>(),
            old(self)@.wf(),
        ensures
            r is Some <==> old(self)@.contains_value(*value),
            !old(self)@.contains_value(*value) ==> *final(self) == *old(self),
            old(self)@.contains_value(*value) ==> {
                let i = old(self)@.index_of_value(*value);
                &&& *r.unwrap() == old(self)@.wts[i]
                &&& final(self)@.vals == old(self)@.vals
                &&& final(self)@.wts == old(self)@.wts.update(i, *final(r.unwrap()))
                &&& final(self)@.total == old(self)@.total
            },
    {
        match self.position_of(value) {
            Some(index) => {
                proof {
                    lemma_index_of_unique(self@, *value, index as int);
                }
                Some(&mut self.weights[index])
            },
            None => None,
        }
    }

    /// Resolves an externally supplied draw `n` against the cumulative
    /// weights, walking the entries in storage order: the first entry
    /// whose weight is at least the remaining draw is returned, with its
    /// weight. Boundaries are inclusive at each step.
    ///
    /// The draw must not exceed the total weight and the table must not
    /// be empty; violating that is a caller bug, not a recoverable state.
    pub fn random_with(&self, n: u32) -> (r: (T, u32))
        requires
            clone_is_exact::<T>(),
            self@.wf(),
            self@.len() > 0,
            n <= self@.total,
        ensures
            ({
                let i = weighted_pick(self@.wts, n).unwrap();
                r == (self@.vals[i], self@.wts[i])
            }),
    {
        let ghost ws = self@.wts;
        proof {
            lemma_pick_in_range(ws, n);
            assert(ws.skip(0) =~= ws);
        }
        let mut rem = n;
        let mut i: usize = 0;
        while i < self.weights.len()
            invariant
                clone_is_exact::<T>(),
                self@.wf(),
                ws == self@.wts,
                i <= self.weights.len(),
                weighted_pick(ws, n) is Some,
                i <= weighted_pick(ws, n).unwrap(),
                weighted_pick(ws.skip(i as int), rem) == Some(
                    weighted_pick(ws, n).unwrap() - i,
                ),
            decreases self.weights.len() - i,
        {
            let ghost k = weighted_pick(ws, n).unwrap();
            proof {
                assert(ws.skip(i as int)[0] == ws[i as int]);
            }
            if rem <= self.weights[i] {
                proof {
                    assert(weighted_pick(ws.skip(i as int), rem) == Some(0int));
                    assert(k == i);
                }
                let value = self.values[i].clone();
                proof {
                    assert(cloned::<T>(self@.vals[i as int], value));
                    assert(value == self@.vals[i as int]);
                    assert(weighted_pick(self@.wts, n).unwrap() == i as int);
                }
                return (value, self.weights[i]);
            }
            proof {
                assert(ws.skip(i as int).drop_first() =~= ws.skip(i + 1));
                assert(weighted_pick(ws.skip(i + 1), (rem - ws[i as int]) as u32) == Some(
                    k - i - 1,
                ));
                lemma_pick_bounds(ws.skip(i + 1), (rem - ws[i as int]) as u32);
            }
            rem = rem - self.weights[i];
            i = i + 1;
        }
        proof {
            assert(ws.skip(ws.len() as int) =~= Seq::<u32>::empty());
            assert(false);
        }
        unreached()
    }

    /// Merges `other` into this table, consuming it. A value present in
    /// both tables has the incoming weight added to its own; a value only
    /// in `other` is appended with its weight. The caller keeps the
    /// combined total within 32 bits.
    pub fn combine(&mut self, other: Self)
        requires
            eq_is_exact::<T>(),
            clone_is_exact::<T>(),
            old(self)@.wf(),
            other@.wf(),
            old(self)@.total + other@.total <= u32::MAX,
        ensures
            final(self)@ == old(self)@.combine_model(other@),
            final(self)@.wf(),
    {
        let ghost m0 = old(self)@;
        let ghost mo = other@;
        proof {
            assert(mo.vals.take(0) =~= Seq::<T>::empty());
            assert(mo.wts.take(0) =~= Seq::<u32>::empty());
        }
        let mut j: usize = 0;
        while j < other.values.len()
            invariant
                eq_is_exact::<T>(),
                clone_is_exact::<T>(),
                j <= other.values.len(),
                other@ == mo,
                mo.wf(),
                self@ == m0.add_all_model(mo.vals.take(j as int), mo.wts.take(j as int)),
                self@.wf(),
                self@.total as int == m0.total + sum_weights(mo.wts.take(j as int)),
                m0.total + mo.total <= u32::MAX,
            decreases other.values.len() - j,
        {
            let value = other.values[j].clone();
            let weight = other.weights[j];
            proof {
                assert(cloned::<T>(mo.vals[j as int], value));
                lemma_sum_split(mo.wts, j as int);
                lemma_sum_nonneg(mo.wts.skip(j as int));
                assert(mo.wts.skip(j as int)[0] == mo.wts[j as int]);
                assert(mo.wts.skip(j as int).drop_first() =~= mo.wts.skip(j + 1));
                lemma_sum_nonneg(mo.wts.skip(j + 1));
                lemma_add_weight_model_wf(self@, value, weight);
            }
            match self.position_of(&value) {
                Some(index) => {
                    proof {
                        lemma_index_of_unique(self@, value, index as int);
                        lemma_weight_le_sum(self@.wts, index as int);
                        lemma_sum_update(
                            self@.wts,
                            index as int,
                            (self@.wts[index as int] + weight) as u32,
                        );
                    }
                    let bumped = self.weights[index] + weight;
                    self.weights[index] = bumped;
                    self.total_weight = self.total_weight + weight;
                },
                None => {
                    proof {
                        lemma_sum_push(self@.wts, weight);
                    }
                    self.weights.push(weight);
                    self.total_weight = self.total_weight + weight;
                    self.values.push(value);
                },
            }
            proof {
                assert(mo.vals.take(j + 1) =~= mo.vals.take(j as int).push(mo.vals[j as int]));
                assert(mo.wts.take(j + 1) =~= mo.wts.take(j as int).push(mo.wts[j as int]));
                lemma_add_all_snoc(
                    m0,
                    mo.vals.take(j as int),
                    mo.wts.take(j as int),
                    mo.vals[j as int],
                    mo.wts[j as int],
                );
                assert(mo.wts.take(j + 1).drop_last() =~= mo.wts.take(j as int));
                lemma_sum_push(mo.wts.take(j as int), mo.wts[j as int]);
                assert(self@ =~= m0.add_all_model(mo.vals.take(j + 1), mo.wts.take(j + 1)));
            }
            j += 1;
        }
        proof {
            assert(mo.vals.take(other@.vals.len() as int) =~= mo.vals);
            assert(mo.wts.take(other@.wts.len() as int) =~= mo.wts);
        }
    }

    /// An iterator over borrowed `(value, weight)` pairs, in storage
    /// (insertion) order.
    pub fn iter(&self) -> (it: WeightedTableIter<'_, T>)
        requires
            self@.lens_ok(),
        ensures
            it.inv(),
            it.table_model() == self@,
            it.position() == 0,
    {
        WeightedTableIter { table: self, index: 0, size: self.values.len() }
    }

    /// An iterator over mutably borrowed `(value, weight)` pairs, in
    /// storage (insertion) order. Edits through the pairs change entries
    /// in place without reordering; the cached total is not adjusted.
    pub fn iter_mut(&mut self) -> (it: WeightedTableIterMut<'_, T>)
        requires
            old(self)@.lens_ok(),
        ensures
            it.position() == 0,
            (*it.table_ref())@ == old(self)@,
            *final(self) == *final(it.table_ref()),
    {
        WeightedTableIterMut { table: self, index: 0 }
    }

    /// An owning iterator over the values, in storage (insertion) order;
    /// the weights are discarded.
    pub fn into_iter(self) -> (it: WeightedTableTupleIntoIter<T>)
        requires
            self@.lens_ok(),
        ensures
            it.inv(),
            it.table_model() == self@,
            it.position() == 0,
    {
        let size = self.values.len();
        WeightedTableTupleIntoIter { table: self, index: 0, size }
    }
}

impl<T> RandomContainer<T> for WeightedTable<T> where T: PartialEq + Clone {
    /// Uniform selection ranges over the stored values, in storage order.
    open spec fn container_elems(&self) -> Seq<T> {
        self@.vals
    }

    open spec fn container_inv(&self) -> bool {
        &&& self@.lens_ok()
        &&& clone_is_exact::<T>()
    }

    fn element_count(&self) -> (n: usize) {
        self.values.len()
    }

    fn element_at(&self, index: usize) -> (e: T) {
        let value = self.values[index].clone();
        proof {
            assert(cloned::<T>(self@.vals[index as int], value));
        }
        value
    }
}

impl<T> RandomWeightedContainer<T> for WeightedTable<T> where T: PartialEq + Clone {
    /// Weighted selection walks the stored values and weights in storage
    /// order.
    open spec fn wc_values(&self) -> Seq<T> {
        self@.vals
    }

    open spec fn wc_weights(&self) -> Seq<u32> {
        self@.wts
    }

    open spec fn wc_inv(&self) -> bool {
        &&& self@.wf()
        &&& clone_is_exact::<T>()
    }

    proof fn wc_inv_facts(&self) {
    }

    fn max_weight(&self) -> (w: u32) {
        self.total_weight
    }

    fn weights(&self) -> (w: &Vec<u32>) {
        &self.weights
    }

    fn values(&self) -> (v: &Vec<T>) {
        &self.values
    }
}

/// Owned iteration over a consumed table: yields each value once, in
/// storage order, discarding the weights.
pub struct WeightedTableTupleIntoIter<T> where T: PartialEq + Clone {
    table: WeightedTable<T>,
    index: usize,
    size: usize,
}

impl<T: PartialEq + Clone> WeightedTableTupleIntoIter<T> {
    /// The model of the consumed table.
    pub closed spec fn table_model(&self) -> TableModel<T> {
        self.table@
    }

    /// How many values have been yielded so far.
    pub closed spec fn position(&self) -> int {
        self.index as int
    }

    pub closed spec fn inv(&self) -> bool {
        &&& self.table@.lens_ok()
        &&& self.size == self.table@.len()
        &&& self.index <= self.size
    }

    /// The next value in storage order, or nothing once every value has
    /// been yielded.
    pub fn next(&mut self) -> (r: Option<T>)
        requires
            old(self).inv(),
            clone_is_exact::<T>(),
        ensures
            final(self).inv(),
            final(self).table_model() == old(self).table_model(),
            old(self).position() >= old(self).table_model().len() ==> r is None && final(self).position() == old(self).position(),
            old(self).position() < old(self).table_model().len() ==> {
                &&& final(self).position() == old(self).position() + 1
                &&& r == Some(old(self).table_model().vals[old(self).position()])
            },
    {
        if self.index < self.size {
            let value = self.table.values[self.index].clone();
            proof {
                assert(cloned::<T>(self.table@.vals[self.index as int], value));
            }
            self.index += 1;
            Some(value)
        } else {
            None
        }
    }
}

/// Borrowed iteration: yields `(&value, &weight)` pairs in storage order
/// without consuming the table.
pub struct WeightedTableIter<'a, T> where T: PartialEq + Clone {
    table: &'a WeightedTable<T>,
    index: usize,
    size: usize,
}

impl<'a, T: PartialEq + Clone> WeightedTableIter<'a, T> {
    /// The model of the borrowed table.
    pub closed spec fn table_model(&self) -> TableModel<T> {
        self.table@
    }

    /// How many pairs have been yielded so far.
    pub closed spec fn position(&self) -> int {
        self.index as int
    }

    pub closed spec fn inv(&self) -> bool {
        &&& self.table@.lens_ok()
        &&& self.size == self.table@.len()
        &&& self.index <= self.size
    }

    /// The next borrowed pair in storage order, or nothing once every
    /// entry has been yielded.
    pub fn next(&mut self) -> (r: Option<(&'a T, &'a u32)>)
        requires
            old(self).inv(),
        ensures
            final(self).inv(),
            final(self).table_model() == old(self).table_model(),
            old(self).position() >= old(self).table_model().len() ==> r is None && final(self).position() == old(self).position(),
            old(self).position() < old(self).table_model().len() ==> {
                let i = old(self).position();
                &&& final(self).position() == i + 1
                &&& r matches Some(e) && *e.0 == old(self).table_model().vals[i] && *e.1 == old(self).table_model().wts[i]
            },
    {
        if self.index < self.size {
            let value = &self.table.values[self.index];
            let weight = &self.table.weights[self.index];
            self.index += 1;
            Some((value, weight))
        } else {
            None
        }
    }
}

/// Mutable iteration: yields `(&mut value, &mut weight)` pairs in storage
/// order, one pair per call, allowing in-place edits of both value and
/// weight. Edits do not reorder entries and do not adjust the cached
/// total; that is the caller's responsibility, as with the mutable weight
/// handle.
pub struct WeightedTableIterMut<'a, T> where T: PartialEq + Clone {
    table: &'a mut WeightedTable<T>,
    index: usize,
}

impl<'a, T: PartialEq + Clone> WeightedTableIterMut<'a, T> {
    /// The borrow of the table this iterator walks.
    pub closed spec fn table_ref(self) -> &'a mut WeightedTable<T> {
        self.table
    }

    /// How many pairs have been yielded so far.
    pub closed spec fn position(&self) -> int {
        self.index as int
    }

    /// Once the iterator will not be used again, the table borrow it
    /// holds settles at its final value: what the walk (and any edits
    /// through the yielded pairs) left behind.
    pub proof fn resolved(self)
        requires
            has_resolved(self),
        ensures
            *self.table_ref() == *final(self.table_ref()),
    {
        assert(has_resolved(self.table));
    }

    /// The next mutably borrowed pair in storage order, or nothing once
    /// every entry has been yielded. The pair borrows from the iterator,
    /// so it must be dropped before the next call.
    pub fn next<'b>(&'b mut self) -> (r: Option<(&'b mut T, &'b mut u32)>)
        requires
            (*old(self).table_ref())@.lens_ok(),
        ensures
            ({
                let m = (*old(self).table_ref())@;
                let i = old(self).position();
                &&& (*final(final(self).table_ref())) == (*final(old(self).table_ref()))
                &&& i >= m.len() ==> {
                    &&& r is None
                    &&& final(self).position() == i
                    &&& *final(self).table_ref() == *old(self).table_ref()
                }
                &&& 0 <= i < m.len() ==> {
                    let pv = r.unwrap().0;
                    let pw = r.unwrap().1;
                    &&& r is Some
                    &&& final(self).position() == i + 1
                    &&& *pv == m.vals[i]
                    &&& *pw == m.wts[i]
                    &&& (*final(self).table_ref())@.vals == m.vals.update(i, *final(pv))
                    &&& (*final(self).table_ref())@.wts == m.wts.update(i, *final(pw))
                    &&& (*final(self).table_ref())@.total == m.total
                }
            }),
    {
        let i = self.index;
        if i < self.table.values.len() {
            self.index = i + 1;
            self.table.get_entry_mut(i)
        } else {
            self.table.get_entry_mut(i)
        }
    }
}

} // verus!
