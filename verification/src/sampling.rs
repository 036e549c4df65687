//! The integer side of path sampling: per-path seeds, antithetic pairing and
//! the resampling indices of the bootstrap model.
use vstd::prelude::*;
use rand::rngs::StdRng;
use rand::Rng;

verus! {

/// The standard seeded random number generator of `rand`.
#[verifier::external_type_specification]
#[verifier::external_body]
pub struct ExStdRng(StdRng);

/// A uniformly drawn index below `upper`, from `rand::Rng::random_range` on
/// `0..upper` (which panics on an empty range). Only the range of the result
/// is stated; which index comes out depends on the generator's state.
#[verifier::external_body]
fn random_index(rng: &mut StdRng, upper: usize) -> (index: usize)
    requires
        upper > 0,
    ensures
        index < upper,
{
    rng.random_range(0..upper)
}

/// The seed of the generator of path `path_index`: `seed + path_index`,
/// wrapping around.
pub fn path_seed(seed: u64, path_index: usize) -> (s: u64)
    ensures
        s == (seed as int + path_index as int) % 0x1_0000_0000_0000_0000,
{
    seed.wrapping_add(path_index as u64)
}

/// The seed of the generator of path `path_index` of the ticker `symbol` in a
/// portfolio run: `seed + path_index + symbol.len()` (the byte length), wrapping
/// around.
pub fn ticker_path_seed(seed: u64, path_index: usize, symbol: &str) -> (s: u64)
    ensures
        s == (seed as int + path_index as int + symbol.len()) % 0x1_0000_0000_0000_0000,
{
    seed.wrapping_add(path_index as u64).wrapping_add(symbol.len() as u64)
}

/// Whether path `path_index` draws the negated shocks of its predecessor:
/// with antithetic sampling on, every odd-numbered path does.
pub fn is_antithetic_path(use_antithetic: bool, path_index: usize) -> (b: bool)
    ensures
        b == (use_antithetic && path_index % 2 == 1),
{
    use_antithetic && path_index % 2 == 1
}

/// The indices of the historical returns that a bootstrap path of `steps`
/// steps resamples, drawn one per step from `rng`. With no historical return
/// there is nothing to draw and the path stays flat: the result is `None`.
pub fn bootstrap_indices(steps: usize, num_returns: usize, rng: &mut StdRng) -> (indices: Option<
    Vec<usize>,
>)
    ensures
        indices is None <==> num_returns == 0,
        indices matches Some(v) ==> v@.len() == steps && forall|i: int|
            0 <= i < steps ==> #[trigger] v@[i] < num_returns,
{
    if num_returns == 0 {
        return None;
    }
    let mut indices: Vec<usize> = Vec::with_capacity(steps);
    let mut step: usize = 0;
    while step < steps
        invariant
            step <= steps,
            num_returns > 0,
            indices@.len() == step,
            forall|i: int| 0 <= i < step ==> #[trigger] indices@[i] < num_returns,
        decreases steps - step,
    {
        let idx = random_index(rng, num_returns);
        indices.push(idx);
        step += 1;
    }
    Some(indices)
}

} // verus!
