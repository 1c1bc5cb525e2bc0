//! A custodial two-player wagering duel game.
//!
//! Two participants each lock a staked amount from a custodial balance,
//! pick a combat persona with fixed attack attributes, and exchange ten
//! alternating attacks whose damage is resolved by a deterministic formula
//! seeded with a host-supplied random byte. The winner receives the combined
//! stake minus a protocol fee; settlement is expressed as explicit external
//! transfer/burn actions that the embedding host performs.
use vstd::prelude::*;

pub mod combat;
pub mod contract;
pub mod figures;
pub mod leaderboard;
pub mod ledger;
pub mod projections;
pub mod registry;
pub mod settlement;
pub mod storage;

verus! {

/// Minimum stake a duel may be created with.
pub const MIN_STAKE: u128 = 1_000_000_000_000_000_000_000_000;

/// A duel is settled after exactly this many turns.
pub const MAX_TURNS: usize = 10;

} // verus!
