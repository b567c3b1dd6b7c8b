use rantz_random::{
    seed, Random, RandomContainer, RandomRange, RandomWeightedContainer, Shuffle, WeightedTable,
};

#[test]
fn boundary_draw_selects_entry_at_boundary() {
    let mut table = WeightedTable::new();
    table.insert(1, 10);
    table.insert(2, 10);

    // A draw exactly on a cumulative boundary selects the entry at the
    // boundary; one past it selects the next entry.
    assert_eq!(table.weighted_random_with_weight(10), Some(1));
    assert_eq!(table.weighted_random_with_weight(11), Some(2));
    assert_eq!(table.weighted_random_with_weight(20), Some(2));
    assert_eq!(table.random_with(11), (2, 10));
}

#[test]
fn draw_above_total_returns_none() {
    let mut table = WeightedTable::new();
    table.insert(1, 10);
    table.insert(2, 10);

    assert_eq!(table.weighted_random_with_weight(21), None);
}

#[test]
fn draw_of_zero_selects_first_entry() {
    let mut table = WeightedTable::new();
    table.insert(1, 0);
    table.insert(2, 10);

    // The walk's boundaries are inclusive, so a zero draw stops at the
    // first entry even when its weight is zero.
    assert_eq!(table.weighted_random_with_weight(0), Some(1));
}

#[test]
fn zero_total_weight_gives_no_weighted_selection() {
    let mut table = WeightedTable::new();
    table.insert(1, 0);

    assert_eq!(table.weighted_random(), None);
    assert_eq!(table.weighted_random_with_weight(0), None);
    // Uniform selection still sees the zero-weight entry.
    assert_eq!(table.random(), Some(1));
}

#[test]
fn combine_adds_totals() {
    let mut table = WeightedTable::new();
    table.insert(1, 10);
    let mut table2 = WeightedTable::new();
    table2.insert(1, 10);
    table2.insert(2, 20);

    table.combine(table2);

    assert_eq!(table.max_weight(), 40);
    assert_eq!(table.weights(), &vec![20, 20]);
    assert_eq!(table.values(), &vec![1, 2]);
}

#[test]
fn from_vec_applies_last_wins_insertion() {
    let table = WeightedTable::from_vec(vec![(1, 10), (2, 20), (1, 30)]);

    assert_eq!(table.values(), &vec![1, 2]);
    assert_eq!(table.weights(), &vec![30, 20]);
    assert_eq!(table.max_weight(), 50);
}

#[test]
fn from_vec_round_trip_matches_sequential_inserts() {
    let pairs = vec![(4, 1), (7, 2), (4, 3), (9, 4), (7, 5)];

    let table = WeightedTable::from_vec(pairs.clone());

    let mut reference = WeightedTable::new();
    for (v, w) in pairs {
        reference.insert(v, w);
    }
    assert_eq!(reference.values(), table.values());
    assert_eq!(reference.weights(), table.weights());
    assert_eq!(reference.max_weight(), table.max_weight());

    // Owned iteration replays the deduplicated insertion order.
    let mut order = Vec::new();
    let mut iter = table.into_iter();
    while let Some(v) = iter.next() {
        order.push(v);
    }
    assert_eq!(order, vec![4, 7, 9]);
}

#[test]
fn all_iteration_modes_follow_insertion_order() {
    let mut table = WeightedTable::new();
    table.insert(5, 50);
    table.insert(3, 30);
    table.insert(8, 80);

    let mut borrowed = Vec::new();
    let mut iter = table.iter();
    while let Some((v, w)) = iter.next() {
        borrowed.push((*v, *w));
    }
    assert_eq!(borrowed, vec![(5, 50), (3, 30), (8, 80)]);

    let mut mutably = Vec::new();
    let mut iter_mut = table.iter_mut();
    while let Some((v, w)) = iter_mut.next() {
        mutably.push((*v, *w));
    }
    assert_eq!(mutably, vec![(5, 50), (3, 30), (8, 80)]);

    let mut owned = Vec::new();
    let mut into_iter = table.into_iter();
    while let Some(v) = into_iter.next() {
        owned.push(v);
    }
    assert_eq!(owned, vec![5, 3, 8]);
}

#[test]
fn removing_absent_value_is_a_noop() {
    let mut table = WeightedTable::new();
    table.insert(1, 10);

    table.remove(&7);

    assert_eq!(table.values(), &vec![1]);
    assert_eq!(table.weights(), &vec![10]);
    assert_eq!(table.max_weight(), 10);
}

#[test]
fn lookups_report_absence() {
    let mut table = WeightedTable::new();
    table.insert(1, 10);

    assert_eq!(table.get_weight(&2), None);
    assert_eq!(table.get_weight_mut(&2), None);
    assert_eq!(table.get_entry(1), None);
    assert_eq!(table.get_entry_ref(1), None);
    assert_eq!(table.get_entry_mut(1), None);
}

#[test]
fn weight_handle_leaves_total_stale() {
    let mut table = WeightedTable::new();
    table.insert(1, 10);

    *table.get_weight_mut(&1).unwrap() = 25;

    // The entry reports the new weight, but the cached total still holds
    // the old sum: keeping it consistent is the caller's responsibility.
    assert_eq!(table.get_entry(0), Some((1, 25)));
    assert_eq!(table.max_weight(), 10);
}

#[test]
fn random_range_stays_inside_bounds() {
    for _ in 0..50 {
        let a = u32::random_range(3, 9);
        assert!((3..=9).contains(&a));
        let b = u64::random_range(10, 20);
        assert!((10..=20).contains(&b));
        let c = usize::random_range(0, 4);
        assert!(c <= 4);
        let d = i32::random_range(-5, 5);
        assert!((-5..=5).contains(&d));
        let e = i64::random_range(-9, -3);
        assert!((-9..=-3).contains(&e));
    }
}

#[test]
fn random_range_with_equal_bounds_is_exact() {
    assert_eq!(u32::random_range(7, 7), 7);
    assert_eq!(u64::random_range(7, 7), 7);
    assert_eq!(usize::random_range(7, 7), 7);
    assert_eq!(i32::random_range(-7, -7), -7);
    assert_eq!(i64::random_range(-7, -7), -7);
}

#[test]
fn seeding_makes_draws_reproducible() {
    seed(12345);
    let first = (u32::random(), u64::random(), i32::random(), bool::random());
    seed(12345);
    let second = (u32::random(), u64::random(), i32::random(), bool::random());

    assert_eq!(first, second);
}

#[test]
fn shuffle_keeps_exactly_the_elements() {
    let mut items = vec![1, 2, 3, 4, 5, 6, 7, 8];
    items.shuffle();

    let mut sorted = items.clone();
    sorted.sort();
    assert_eq!(sorted, vec![1, 2, 3, 4, 5, 6, 7, 8]);
}

#[test]
fn shuffled_leaves_the_original_alone() {
    let items = vec![1, 2, 3, 4, 5];
    let copy = items.shuffled();

    assert_eq!(items, vec![1, 2, 3, 4, 5]);
    let mut sorted = copy.clone();
    sorted.sort();
    assert_eq!(sorted, vec![1, 2, 3, 4, 5]);
}

#[test]
fn vec_uniform_selection() {
    let items = vec![42];
    assert_eq!(items.random(), Some(42));
    assert_eq!(items.random_element(), Some(42));
    assert_eq!(items.random_index(), Some(0));
    assert_eq!(items.random_with_index(), Some((0, 42)));

    let empty: Vec<u32> = Vec::new();
    assert_eq!(empty.random(), None);
    assert_eq!(empty.random_index(), None);
    assert_eq!(empty.random_with_index(), None);
    assert_eq!(empty.random_element(), None);
}

#[test]
fn uniform_selection_over_several_entries_lands_in_table() {
    let mut table = WeightedTable::new();
    table.insert(1, 10);
    table.insert(2, 0);
    table.insert(3, 5);

    for _ in 0..50 {
        let picked = table.random().unwrap();
        assert!(table.get_weight(&picked).is_some());
        let weighted = table.weighted_random().unwrap();
        let w = table.get_weight(&weighted).unwrap();
        // A zero-weight entry can only come out of the weighted draw at a
        // cumulative boundary, never past the total.
        assert!(w <= table.max_weight());
    }
}
