//! Meta search over the parameters of an evolutionary optimizer.
//!
//! The caller declares candidate values for each parameter of the inner
//! optimizer (population size, staleness and age limits, target score, and
//! the four operator choices), a trial count, and a quality/time conversion
//! factor. The search enumerates every combination, runs the inner optimizer
//! the configured number of times per combination through a caller-supplied
//! runner, scores each combination by a blend of mean solution quality and
//! total wall-clock cost, and retains the best-scoring combination, ties
//! broken toward the earliest in enumeration order.

pub mod config;
pub mod fitness;
pub mod math;
pub mod permutate;
pub mod prelude;
pub mod stats;
