//! The mathematical model of a weighted table: two parallel sequences
//! (values and weights), a cached total, and the spec-level transformers
//! that the executable operations are proved against.

use vstd::prelude::*;

verus! {

/// Sum of a sequence of weights, as an unbounded integer.
pub open spec fn sum_weights(s: Seq<u32>) -> int
    decreases s.len(),
{
    if s.len() == 0 {
        0
    } else {
        s[0] + sum_weights(s.drop_first())
    }
}

/// Index selected by the cumulative-weight bucket walk: starting with the
/// draw `n`, each entry whose weight is at least the remaining draw is
/// selected; otherwise its weight is subtracted and the walk moves on.
/// Boundaries are inclusive, so a draw equal to a cumulative boundary
/// selects the entry at that boundary.
pub open spec fn weighted_pick(ws: Seq<u32>, n: u32) -> Option<int>
    decreases ws.len(),
{
    if ws.len() == 0 {
        None
    } else if n <= ws[0] {
        Some(0int)
    } else {
        match weighted_pick(ws.drop_first(), (n - ws[0]) as u32) {
            Some(i) => Some(i + 1),
            None => None,
        }
    }
}

/// Ghost state of a weighted table.
#[verifier::ext_equal]
pub struct TableModel<T> {
    pub vals: Seq<T>,
    pub wts: Seq<u32>,
    pub total: u32,
}

impl<T> TableModel<T> {
    pub open spec fn empty() -> Self {
        TableModel { vals: Seq::empty(), wts: Seq::empty(), total: 0 }
    }

    pub open spec fn len(self) -> nat {
        self.vals.len()
    }

    /// The two backing sequences run in parallel.
    pub open spec fn lens_ok(self) -> bool {
        self.vals.len() == self.wts.len()
    }

    /// No two entries hold equal values.
    pub open spec fn no_dups(self) -> bool {
        forall|i: int, j: int|
            0 <= i < j < self.vals.len() ==> self.vals[i] != self.vals[j]
    }

    /// The table invariant: parallel sequences, distinct values, and a
    /// total that caches the sum of the weights.
    pub open spec fn wf(self) -> bool {
        &&& self.lens_ok()
        &&& self.no_dups()
        &&& self.total as int == sum_weights(self.wts)
    }

    pub open spec fn contains_value(self, v: T) -> bool {
        self.vals.contains(v)
    }

    /// The index of a value; under `no_dups` it is the only one.
    pub open spec fn index_of_value(self, v: T) -> int {
        self.vals.index_of(v)
    }

    /// The weight a value would contribute to the total: its current
    /// weight if present, zero otherwise.
    pub open spec fn weight_of(self, v: T) -> int {
        if self.contains_value(v) {
            self.wts[self.index_of_value(v)] as int
        } else {
            0
        }
    }

    /// The total after inserting `v` with weight `w` (last-wins).
    pub open spec fn total_after_insert(self, v: T, w: u32) -> int {
        self.total - self.weight_of(v) + w
    }

    /// Insert with last-wins semantics: an existing value keeps its slot
    /// and its weight is replaced; a new value is appended.
    pub open spec fn insert_model(self, v: T, w: u32) -> Self {
        if self.contains_value(v) {
            let i = self.index_of_value(v);
            TableModel {
                vals: self.vals,
                wts: self.wts.update(i, w),
                total: (self.total - self.wts[i] + w) as u32,
            }
        } else {
            TableModel {
                vals: self.vals.push(v),
                wts: self.wts.push(w),
                total: (self.total + w) as u32,
            }
        }
    }

    /// Remove a value if present; a no-op otherwise.
    pub open spec fn remove_model(self, v: T) -> Self {
        if self.contains_value(v) {
            let i = self.index_of_value(v);
            TableModel {
                vals: self.vals.remove(i),
                wts: self.wts.remove(i),
                total: (self.total - self.wts[i]) as u32,
            }
        } else {
            self
        }
    }

    /// Accumulating insert, as `combine` applies it: an existing value has
    /// the incoming weight added to its own; a new value is appended.
    pub open spec fn add_weight_model(self, v: T, w: u32) -> Self {
        if self.contains_value(v) {
            let i = self.index_of_value(v);
            TableModel {
                vals: self.vals,
                wts: self.wts.update(i, (self.wts[i] + w) as u32),
                total: (self.total + w) as u32,
            }
        } else {
            TableModel {
                vals: self.vals.push(v),
                wts: self.wts.push(w),
                total: (self.total + w) as u32,
            }
        }
    }

    /// Fold `add_weight_model` over parallel sequences of values and
    /// weights, in order.
    pub open spec fn add_all_model(self, vs: Seq<T>, ws: Seq<u32>) -> Self
        decreases vs.len(),
    {
        if vs.len() == 0 || ws.len() == 0 {
            self
        } else {
            self.add_weight_model(vs[0], ws[0]).add_all_model(vs.drop_first(), ws.drop_first())
        }
    }

    /// Merge another table into this one: every entry of `other`
    /// contributes its weight, additively for common values.
    pub open spec fn combine_model(self, other: Self) -> Self {
        self.add_all_model(other.vals, other.wts)
    }

    /// Fold `insert_model` over a sequence of pairs, in order
    /// (last-wins deduplication).
    pub open spec fn insert_all_model(self, pairs: Seq<(T, u32)>) -> Self
        decreases pairs.len(),
    {
        if pairs.len() == 0 {
            self
        } else {
            self.insert_model(pairs[0].0, pairs[0].1).insert_all_model(pairs.drop_first())
        }
    }

    /// The table built from a sequence of pairs by repeated insertion.
    pub open spec fn from_pairs_model(pairs: Seq<(T, u32)>) -> Self {
        TableModel::empty().insert_all_model(pairs)
    }
}

/// Every insertion in a sequence of pairs stays within the 32-bit total,
/// starting from the given table.
pub open spec fn inserts_fit<T>(m: TableModel<T>, pairs: Seq<(T, u32)>) -> bool
    decreases pairs.len(),
{
    if pairs.len() == 0 {
        true
    } else {
        &&& m.total_after_insert(pairs[0].0, pairs[0].1) <= u32::MAX
        &&& inserts_fit(m.insert_model(pairs[0].0, pairs[0].1), pairs.drop_first())
    }
}

/// Under `no_dups`, an index holding a value is the index of that value.
pub proof fn lemma_index_of_unique<T>(m: TableModel<T>, v: T, i: int)
    requires
        m.no_dups(),
        0 <= i < m.vals.len(),
        m.vals[i] == v,
    ensures
        m.contains_value(v),
        m.index_of_value(v) == i,
{
    assert(m.vals.contains(v));
    let k = m.index_of_value(v);
    assert(m.vals[k] == v);
    if k != i {
        if k < i {
            assert(m.vals[k] != m.vals[i]);
        } else {
            assert(m.vals[i] != m.vals[k]);
        }
    }
}

/// A value a table contains sits at a valid index with a weight bounded by
/// the total.
pub proof fn lemma_weight_of_bounds<T>(m: TableModel<T>, v: T)
    requires
        m.wf(),
        m.contains_value(v),
    ensures
        0 <= m.index_of_value(v) < m.wts.len(),
        m.wts[m.index_of_value(v)] <= m.total,
{
    let i = m.index_of_value(v);
    assert(m.vals[i] == v);
    lemma_weight_le_sum(m.wts, i);
}

/// Last-wins insertion preserves the table invariant whenever the new
/// total fits in 32 bits.
pub proof fn lemma_insert_model_wf<T>(m: TableModel<T>, v: T, w: u32)
    requires
        m.wf(),
        m.total_after_insert(v, w) <= u32::MAX,
    ensures
        m.insert_model(v, w).wf(),
        m.insert_model(v, w).total as int == m.total_after_insert(v, w),
{
    if m.contains_value(v) {
        let i = m.index_of_value(v);
        assert(m.vals[i] == v);
        lemma_weight_le_sum(m.wts, i);
        lemma_sum_update(m.wts, i, w);
    } else {
        lemma_sum_push(m.wts, w);
        let m2 = m.insert_model(v, w);
        assert forall|i: int, j: int| 0 <= i < j < m2.vals.len() implies m2.vals[i]
            != m2.vals[j] by {
            if j == m2.vals.len() - 1 {
                assert(m2.vals[j] == v);
                assert(!m.vals.contains(v));
                assert(m.vals[i] == m2.vals[i]);
                if m2.vals[i] == v {
                    assert(m.vals.contains(v));
                }
            }
        }
    }
}

/// Removal preserves the table invariant.
pub proof fn lemma_remove_model_wf<T>(m: TableModel<T>, v: T)
    requires
        m.wf(),
    ensures
        m.remove_model(v).wf(),
{
    if m.contains_value(v) {
        let i = m.index_of_value(v);
        assert(m.vals[i] == v);
        lemma_sum_remove(m.wts, i);
        lemma_weight_le_sum(m.wts, i);
        let m2 = m.remove_model(v);
        assert forall|p: int, q: int| 0 <= p < q < m2.vals.len() implies m2.vals[p]
            != m2.vals[q] by {
            let p0 = if p < i { p } else { p + 1 };
            let q0 = if q < i { q } else { q + 1 };
            assert(m2.vals[p] == m.vals[p0]);
            assert(m2.vals[q] == m.vals[q0]);
        }
    }
}

/// Accumulating insertion preserves the table invariant whenever the new
/// total fits in 32 bits.
pub proof fn lemma_add_weight_model_wf<T>(m: TableModel<T>, v: T, w: u32)
    requires
        m.wf(),
        m.total + w <= u32::MAX,
    ensures
        m.add_weight_model(v, w).wf(),
        m.add_weight_model(v, w).total as int == m.total + w,
{
    if m.contains_value(v) {
        let i = m.index_of_value(v);
        assert(m.vals[i] == v);
        lemma_weight_le_sum(m.wts, i);
        lemma_sum_update(m.wts, i, (m.wts[i] + w) as u32);
    } else {
        lemma_sum_push(m.wts, w);
        let m2 = m.add_weight_model(v, w);
        assert forall|i: int, j: int| 0 <= i < j < m2.vals.len() implies m2.vals[i]
            != m2.vals[j] by {
            if j == m2.vals.len() - 1 {
                if m2.vals[i] == v {
                    assert(m.vals.contains(v));
                }
            }
        }
    }
}

/// Folding accumulating inserts preserves the table invariant; the final
/// total is the initial one plus every weight folded in.
pub proof fn lemma_add_all_model_wf<T>(m: TableModel<T>, vs: Seq<T>, ws: Seq<u32>)
    requires
        m.wf(),
        vs.len() == ws.len(),
        m.total + sum_weights(ws) <= u32::MAX,
    ensures
        m.add_all_model(vs, ws).wf(),
        m.add_all_model(vs, ws).total as int == m.total + sum_weights(ws),
    decreases vs.len(),
{
    if vs.len() > 0 {
        lemma_sum_nonneg(ws.drop_first());
        lemma_add_weight_model_wf(m, vs[0], ws[0]);
        lemma_add_all_model_wf(m.add_weight_model(vs[0], ws[0]), vs.drop_first(), ws.drop_first());
    }
}

/// Folding one more pair into a sequence of last-wins inserts.
pub proof fn lemma_insert_all_snoc<T>(m: TableModel<T>, pairs: Seq<(T, u32)>, p: (T, u32))
    ensures
        m.insert_all_model(pairs.push(p)) == m.insert_all_model(pairs).insert_model(p.0, p.1),
    decreases pairs.len(),
{
    if pairs.len() == 0 {
        assert(pairs.push(p).drop_first() =~= Seq::<(T, u32)>::empty());
        assert(pairs.push(p)[0] == p);
        assert(m.insert_all_model(pairs.push(p)) == m.insert_model(p.0, p.1).insert_all_model(
            Seq::<(T, u32)>::empty(),
        ));
        assert(m.insert_model(p.0, p.1).insert_all_model(Seq::<(T, u32)>::empty())
            == m.insert_model(p.0, p.1));
    } else {
        assert(pairs.push(p).drop_first() =~= pairs.drop_first().push(p));
        assert(pairs.push(p)[0] == pairs[0]);
        lemma_insert_all_snoc(m.insert_model(pairs[0].0, pairs[0].1), pairs.drop_first(), p);
        assert(m.insert_all_model(pairs.push(p)) == m.insert_model(
            pairs[0].0,
            pairs[0].1,
        ).insert_all_model(pairs.drop_first().push(p)));
    }
}

/// Folding one more pair into a sequence of accumulating inserts.
pub proof fn lemma_add_all_snoc<T>(m: TableModel<T>, vs: Seq<T>, ws: Seq<u32>, v: T, w: u32)
    requires
        vs.len() == ws.len(),
    ensures
        m.add_all_model(vs.push(v), ws.push(w)) == m.add_all_model(vs, ws).add_weight_model(v, w),
    decreases vs.len(),
{
    if vs.len() == 0 {
        assert(vs.push(v).drop_first() =~= Seq::<T>::empty());
        assert(ws.push(w).drop_first() =~= Seq::<u32>::empty());
        assert(m.add_all_model(vs.push(v), ws.push(w)) == m.add_weight_model(v, w).add_all_model(
            Seq::<T>::empty(),
            Seq::<u32>::empty(),
        ));
        assert(m.add_weight_model(v, w).add_all_model(Seq::<T>::empty(), Seq::<u32>::empty())
            == m.add_weight_model(v, w));
    } else {
        assert(vs.push(v).drop_first() =~= vs.drop_first().push(v));
        assert(ws.push(w).drop_first() =~= ws.drop_first().push(w));
        lemma_add_all_snoc(
            m.add_weight_model(vs[0], ws[0]),
            vs.drop_first(),
            ws.drop_first(),
            v,
            w,
        );
        assert(m.add_all_model(vs.push(v), ws.push(w)) == m.add_weight_model(
            vs[0],
            ws[0],
        ).add_all_model(vs.drop_first().push(v), ws.drop_first().push(w)));
    }
}

/// The sum of weights is never negative.
pub proof fn lemma_sum_nonneg(s: Seq<u32>)
    ensures
        sum_weights(s) >= 0,
    decreases s.len(),
{
    if s.len() > 0 {
        lemma_sum_nonneg(s.drop_first());
    }
}

/// Appending a weight adds it to the sum.
pub proof fn lemma_sum_push(s: Seq<u32>, x: u32)
    ensures
        sum_weights(s.push(x)) == sum_weights(s) + x,
    decreases s.len(),
{
    if s.len() == 0 {
        assert(s.push(x).drop_first() =~= Seq::<u32>::empty());
        assert(sum_weights(s.push(x)) == x + sum_weights(Seq::<u32>::empty()));
    } else {
        assert(s.push(x).drop_first() =~= s.drop_first().push(x));
        lemma_sum_push(s.drop_first(), x);
        assert(sum_weights(s.push(x)) == s[0] + sum_weights(s.drop_first().push(x)));
    }
}

/// Replacing the weight at an index shifts the sum by the difference.
pub proof fn lemma_sum_update(s: Seq<u32>, i: int, x: u32)
    requires
        0 <= i < s.len(),
    ensures
        sum_weights(s.update(i, x)) == sum_weights(s) - s[i] + x,
    decreases s.len(),
{
    if i == 0 {
        assert(s.update(0, x).drop_first() =~= s.drop_first());
    } else {
        assert(s.update(i, x).drop_first() =~= s.drop_first().update(i - 1, x));
        lemma_sum_update(s.drop_first(), i - 1, x);
    }
}

/// Removing the weight at an index subtracts it from the sum.
pub proof fn lemma_sum_remove(s: Seq<u32>, i: int)
    requires
        0 <= i < s.len(),
    ensures
        sum_weights(s.remove(i)) == sum_weights(s) - s[i],
    decreases s.len(),
{
    if i == 0 {
        assert(s.remove(0) =~= s.drop_first());
    } else {
        assert(s.remove(i).drop_first() =~= s.drop_first().remove(i - 1));
        lemma_sum_remove(s.drop_first(), i - 1);
    }
}

/// The sum splits at any boundary into the sum of the prefix and the sum
/// of the rest.
pub proof fn lemma_sum_split(s: Seq<u32>, i: int)
    requires
        0 <= i <= s.len(),
    ensures
        sum_weights(s) == sum_weights(s.take(i)) + sum_weights(s.skip(i)),
    decreases i,
{
    if i == 0 {
        assert(s.take(0) =~= Seq::<u32>::empty());
        assert(s.skip(0) =~= s);
    } else {
        lemma_sum_split(s.drop_first(), i - 1);
        assert(s.drop_first().take(i - 1) =~= s.take(i).drop_first());
        assert(s.drop_first().skip(i - 1) =~= s.skip(i));
        assert(sum_weights(s.take(i)) == s.take(i)[0] + sum_weights(s.take(i).drop_first()));
        assert(s.take(i)[0] == s[0]);
    }
}

/// Each weight is bounded by the sum of its sequence.
pub proof fn lemma_weight_le_sum(s: Seq<u32>, i: int)
    requires
        0 <= i < s.len(),
    ensures
        s[i] <= sum_weights(s),
    decreases s.len(),
{
    lemma_sum_nonneg(s.drop_first());
    if i > 0 {
        lemma_weight_le_sum(s.drop_first(), i - 1);
    }
}

/// A draw no greater than the sum always selects an entry, and the
/// selected index is in range.
pub proof fn lemma_pick_in_range(ws: Seq<u32>, n: u32)
    requires
        ws.len() > 0,
        n <= sum_weights(ws),
    ensures
        weighted_pick(ws, n) matches Some(i) && 0 <= i < ws.len(),
    decreases ws.len(),
{
    if n > ws[0] {
        lemma_sum_nonneg(ws.drop_first());
        lemma_pick_in_range(ws.drop_first(), (n - ws[0]) as u32);
    }
}

/// Whenever the bucket walk selects an index, that index is in range.
pub proof fn lemma_pick_bounds(ws: Seq<u32>, n: u32)
    ensures
        weighted_pick(ws, n) matches Some(i) ==> 0 <= i < ws.len(),
    decreases ws.len(),
{
    if ws.len() > 0 && n > ws[0] {
        lemma_pick_bounds(ws.drop_first(), (n - ws[0]) as u32);
    }
}

} // verus!
