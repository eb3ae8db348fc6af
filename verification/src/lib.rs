//! Verified building blocks of the Through the Ages analysis probes.
use vstd::prelude::*;

pub mod args;
pub mod cards;
pub mod card_fate;
pub mod census;
pub mod force_open;
pub mod harness_args;
pub mod human_data;
pub mod human_paired;
pub mod human_train;
pub mod journal;
pub mod keyed_tally;
pub mod kind_match_args;
pub mod mult_check;
pub mod neural_eval_args;
pub mod num;
pub mod opener;
pub mod opening_walk;
pub mod opener_args;
pub mod order_probe;
pub mod phi_dump;
pub mod rank_data;
pub mod replay_census;
pub mod replay_stats;
pub mod seating;
pub mod self_play_args;
pub mod stats;
pub mod strength_relab;
pub mod sums;
pub mod take_probe;
pub mod take_probe_args;
pub mod take_characterise;
pub mod tallies;
pub mod text;
pub mod winner_pass;
pub mod winner_tallies;
pub mod winners;

verus! {
} // verus!
