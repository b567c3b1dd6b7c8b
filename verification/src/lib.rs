//! A weighted random-selection table and uniform-selection helpers.
//!
//! The central type is a table that pairs each distinct value with an
//! integer weight and can pick an entry with probability proportional to
//! its weight. Random draws come from a single external uniform source
//! behind a small trusted boundary.

pub mod exact;
pub mod laws;
pub mod random_impl;
pub mod random_range_impl;
pub mod random_traits;
pub mod rng;
pub mod shuffle_impl;
pub mod shuffle_trait;
pub mod table_model;
pub mod weighted_table;

pub use random_traits::Random;
pub use random_traits::RandomContainer;
pub use random_traits::RandomRange;
pub use random_traits::RandomWeightedContainer;
pub use rng::seed;
pub use shuffle_trait::Shuffle;
pub use weighted_table::WeightedTable;
