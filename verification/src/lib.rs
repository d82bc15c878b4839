//! Regret matching for Rock-Paper-Scissors and its five-action extension.
//!
//! Every quantity is an exact integer: payoffs are -1, 0 or 1, regrets are
//! signed sums of payoff differences, a strategy is a vector of integer
//! weights over a common denominator, and accumulated strategy mass is counted
//! in fixed units of `1 / MASS_UNIT`.

pub mod action;
pub mod payoff;
pub mod sums;
pub mod values;
pub mod matcher;
pub mod sampler;
pub mod regret;
pub mod average;
pub mod random;
pub mod trainer;
pub mod iterations;
