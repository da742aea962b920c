//! Outcome-generation and reconciliation engine for a reel-based slot game.
//!
//! The engine draws random symbols per reel according to per-symbol weights,
//! assembles them into a grid, detects winning lines, computes payouts, and
//! reconciles a long circular symbol sequence (used for the spin animation)
//! with a pre-determined target outcome, so that the animation stops showing
//! exactly the symbols that were drawn.
//!
//! Money, payout attributes and draw weights are kept as whole `u64` units.

pub mod aligner;
pub mod animation;
pub mod errors;
pub mod machine;
pub mod player;
pub mod scoring;
pub mod session;
pub mod symbol;
pub mod wins;

mod rng;
