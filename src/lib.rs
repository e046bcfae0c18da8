//! Accounting for automated market-making pools: a weighted pool over up to
//! 1024 assets with admin-managed membership, weights and fee, and a
//! two-asset constant-product pair. Every operation checks its inputs and
//! computes its effects over plain values; moving tokens is left to the caller.

pub mod accounts;
pub mod error;
pub mod laws;
pub mod liquidity;
pub mod math;
pub mod membership;
pub mod pair;
pub mod pool;
pub mod swap;
