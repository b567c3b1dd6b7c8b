//! The table's laws: what holds of every sequence of operations, stated
//! over the model and proved once.

use crate::table_model::{
    inserts_fit, lemma_add_all_model_wf, lemma_insert_model_wf, lemma_remove_model_wf,
    lemma_sum_remove, lemma_sum_update, lemma_weight_of_bounds, sum_weights, TableModel,
};
use vstd::prelude::*;

verus! {

/// After any insert into a well-formed table whose new total fits in 32
/// bits, the invariants hold again: the two sequences stay parallel, the
/// total equals the sum of the weights, and no value appears twice.
pub proof fn law_insert_keeps_invariants<T>(m: TableModel<T>, v: T, w: u32)
    requires
        m.wf(),
        m.total_after_insert(v, w) <= u32::MAX,
    ensures
        ({
            let m2 = m.insert_model(v, w);
            &&& m2.wf()
            &&& m2.vals.len() == m2.wts.len()
            &&& m2.total as int == sum_weights(m2.wts)
            &&& m2.no_dups()
        }),
{
    lemma_insert_model_wf(m, v, w);
}

/// Inserting a value that is already present replaces its weight in
/// place: the values are unchanged, and the new total is the old sum with
/// the old weight replaced by the new one — not added to it.
pub proof fn law_insert_existing_replaces<T>(m: TableModel<T>, v: T, w: u32)
    requires
        m.wf(),
        m.contains_value(v),
        m.total_after_insert(v, w) <= u32::MAX,
    ensures
        ({
            let i = m.index_of_value(v);
            let m2 = m.insert_model(v, w);
            &&& m2.vals == m.vals
            &&& m2.wts == m.wts.update(i, w)
            &&& m2.total as int == sum_weights(m.wts) - m.wts[i] + w
            &&& m2.total as int == sum_weights(m2.wts)
        }),
{
    lemma_insert_model_wf(m, v, w);
    lemma_weight_of_bounds(m, v);
    lemma_sum_update(m.wts, m.index_of_value(v), w);
}

/// Removing a value the table does not contain changes nothing.
pub proof fn law_remove_absent_is_noop<T>(m: TableModel<T>, v: T)
    requires
        !m.contains_value(v),
    ensures
        m.remove_model(v) == m,
{
}

/// Removing the only entry restores the empty-table invariants: both
/// sequences empty and total weight zero.
pub proof fn law_remove_last_restores_empty<T>(m: TableModel<T>, v: T)
    requires
        m.wf(),
        m.len() == 1,
        m.contains_value(v),
    ensures
        m.remove_model(v) == TableModel::<T>::empty(),
        m.remove_model(v).total == 0,
        m.remove_model(v).vals.len() == 0,
        m.remove_model(v).wts.len() == 0,
{
    lemma_remove_model_wf(m, v);
    let i = m.index_of_value(v);
    assert(m.vals[i] == v);
    lemma_sum_remove(m.wts, i);
    assert(m.wts.remove(i) =~= Seq::<u32>::empty());
    assert(m.vals.remove(i) =~= Seq::<T>::empty());
    assert(sum_weights(m.wts) == m.wts[0] + sum_weights(m.wts.drop_first()));
    assert(m.wts.drop_first() =~= Seq::<u32>::empty());
    assert(m.remove_model(v) =~= TableModel::<T>::empty());
}

/// Merging two well-formed tables whose totals fit in 32 bits together
/// yields a well-formed table whose total is the sum of both totals:
/// every unit of the consumed table's weight lands in exactly one entry.
pub proof fn law_combine_adds_totals<T>(m: TableModel<T>, other: TableModel<T>)
    requires
        m.wf(),
        other.wf(),
        m.total + other.total <= u32::MAX,
    ensures
        m.combine_model(other).wf(),
        m.combine_model(other).total as int == m.total + other.total,
{
    lemma_add_all_model_wf(m, other.vals, other.wts);
}

/// Building a table from a sequence of pairs by repeated last-wins
/// insertion yields a well-formed table, whenever every intermediate
/// total fits in 32 bits; owned iteration then replays its values in
/// exactly that deduplicated insertion order.
pub proof fn law_from_pairs_well_formed<T>(pairs: Seq<(T, u32)>)
    requires
        inserts_fit(TableModel::<T>::empty(), pairs),
    ensures
        TableModel::<T>::from_pairs_model(pairs).wf(),
{
    lemma_insert_all_fit_wf(TableModel::<T>::empty(), pairs);
}

/// Folding fitting inserts over a well-formed table keeps it well-formed.
pub proof fn lemma_insert_all_fit_wf<T>(m: TableModel<T>, pairs: Seq<(T, u32)>)
    requires
        m.wf(),
        inserts_fit(m, pairs),
    ensures
        m.insert_all_model(pairs).wf(),
    decreases pairs.len(),
{
    if pairs.len() > 0 {
        lemma_insert_model_wf(m, pairs[0].0, pairs[0].1);
        lemma_insert_all_fit_wf(m.insert_model(pairs[0].0, pairs[0].1), pairs.drop_first());
    }
}

/// Writing a weight through the mutable handle edits exactly that entry:
/// the values, the other weights and the cached total are untouched — so
/// the total is consistent with the weights again only when the written
/// weight equals the one it replaces.
pub proof fn law_weight_handle_leaves_total_stale<T>(m: TableModel<T>, i: int, w: u32)
    requires
        m.wf(),
        0 <= i < m.len(),
    ensures
        ({
            let m2 = TableModel { vals: m.vals, wts: m.wts.update(i, w), total: m.total };
            &&& m2.vals[i] == m.vals[i]
            &&& m2.wts[i] == w
            &&& m2.len() == m.len()
            &&& m2.total == m.total
            &&& (m2.total as int == sum_weights(m2.wts) <==> w == m.wts[i])
        }),
{
    lemma_sum_update(m.wts, i, w);
}

} // verus!
