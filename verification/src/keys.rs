//! Order keys of the real numbers that the library compares.
//!
//! A key is an `i64` ordered exactly as the number it stands for. The keys of
//! the few fixed numbers that the library's rules name are collected here.
use vstd::prelude::*;

verus! {

/// Key of the number zero. Keys of negative numbers are below it, keys of
/// positive numbers above it.
pub const ZERO: i64 = 0;

/// Key of the number one.
pub const ONE: i64 = 4607182418800017408;

/// Key of 100000, the capital of a default portfolio.
pub const DEFAULT_CAPITAL: i64 = 4681608360884174848;

/// Key of 2, the default jump intensity (jumps per unit time).
pub const DEFAULT_JUMP_INTENSITY: i64 = 4611686018427387904;

/// Key of -0.02, the default mean jump size in log space.
pub const DEFAULT_JUMP_MEAN: i64 = -4581421828931458172;

/// Key of 0.05, the default jump volatility.
pub const DEFAULT_JUMP_VOLATILITY: i64 = 4587366580439587226;

/// Key of 0.00001, the default GARCH constant term.
pub const DEFAULT_GARCH_OMEGA: i64 = 4532020583610935537;

/// Key of 0.1, the default ARCH coefficient.
pub const DEFAULT_GARCH_ALPHA: i64 = 4591870180066957722;

/// Key of 0.85, the default GARCH coefficient.
pub const DEFAULT_GARCH_BETA: i64 = 4605831338911806259;

} // verus!
