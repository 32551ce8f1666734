//! Order-preserving random sampling of `n` items out of `N`, read in one
//! forward pass.
//!
//! The library holds the integer side of Vitter's sequential sampling
//! methods: the sampling automaton with its population bookkeeping, the
//! crossover between the rejection method (Method D) and direct inversion
//! (Method A), the final single-element draw, and the turning of skip counts
//! into decisions, masks and selected positions. The real-valued arithmetic
//! of the acceptance tests and the random draws are made by the caller, who
//! hands the automaton their integer outcomes.
mod config;
mod skips;
mod automaton;
mod view;

pub use config::{SampleError, SamplingConfig, direct_preferred, direct_rule};
pub use skips::{sum_of, position_of, lemma_positions_ordered, lemma_zero_sum};
pub use automaton::{
    Phase, RunState, SamplingAutomaton, ProductRange, lemma_run_positions,
    lemma_full_sample_in_order, lemma_direct_exclusive, lemma_full_sample_terminal,
    lemma_empty_sample, lemma_single_selection,
};
pub use view::{
    Decision, ViewCursor, nats, weight, consumed, selections, is_selected, decisions_from_skips, mask_from_skips,
    select_by_skips, positions_from_skips,
};
