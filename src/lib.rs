//! Retry middleware's attempt state machine, verified.
//!
//! `future` holds the machine that drives one logical call through attempts, policy decisions
//! and readiness checks; `laws` proves what holds of every run of it.

pub mod future;
pub mod laws;
