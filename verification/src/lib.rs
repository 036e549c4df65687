//! Monte Carlo price-path simulation: barrier detection, hit statistics,
//! portfolio bookkeeping, configuration checks and the integer side of
//! path sampling.
//!
//! Real-valued quantities (prices, weights, model parameters, returns) are
//! carried through this library as *order keys*: `i64` values that are
//! ordered exactly as the numbers they stand for, with `0` standing for
//! zero. Only numbers have keys: NaN is not a number and has none, so the
//! library's results speak of inputs without NaN. Every decision the library
//! takes on such a quantity is a comparison, so it is exact on keys; the
//! arithmetic on the numbers themselves is done by the caller, which hands the
//! library the keys and the facts it needs.
pub mod barriers;
pub mod config;
pub mod keys;
pub mod model;
pub mod portfolio;
pub mod pnl;
pub mod sampling;
