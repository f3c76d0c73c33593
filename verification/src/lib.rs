//! Emission-and-reward-distribution engine for a native reward token.
//!
//! The engine decides, once per block, how much reward to accrue into an
//! emission pool, when the accrued reward is paid out, and how a payout is
//! divided among participants under two economic models: a flat pro-rata
//! pool and a two-tier asset-weighted pool.

pub mod arith;
pub mod distribution;
pub mod finalize;
pub mod laws;
pub mod recorders;
pub mod state;
pub mod weights;
