//! Hash containers with a fixed, non-random hash seed.
//!
//! Standard hash maps and sets randomize their hash seed once per process, so
//! the order in which two equal containers iterate differs from run to run.
//! The types here keep the full contract of those containers but construct
//! every hasher from the same fixed initial state, so that a given sequence of
//! insertions always produces the same internal layout — and therefore the
//! same iteration order — in every run and every process.

mod convert;
mod laws;
mod map;
mod policy;
mod set;

pub use laws::distinct_keys;
pub use laws::lemma_insert_then_remove_map;
pub use laws::lemma_insert_then_remove_set;
pub use laws::lemma_last_entry_wins;
pub use laws::lemma_map_extend_matches_single_inserts;
pub use laws::lemma_map_order_independent_construction;
pub use laws::lemma_set_extend_matches_single_inserts;
pub use laws::lemma_set_order_independent_construction;
pub use map::HashMap;
pub use map::has_key;
pub use map::last_value_for;
pub use map::map_extended;
pub use map::one_value_per_entry;
pub use policy::NonRandomState;
pub use policy::eq_reflects_identity;
pub use set::HashSet;
pub use set::inserted_all;
