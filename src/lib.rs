//! Verified core of a Monte Carlo retirement-portfolio simulator: the seeded
//! generator and its Box–Muller consumption pattern, input checks, the order of
//! the steps of a simulated year, per-path bookkeeping, nearest-rank
//! percentiles of `f64` values (held as bit patterns, in IEEE total order) and
//! the failure-year histogram.

pub mod aggregate;
pub mod failures;
pub mod model;
pub mod path;
pub mod quantile;
pub mod rng;
