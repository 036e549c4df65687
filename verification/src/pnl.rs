//! The order side of portfolio-level return statistics: how many paths gain
//! or lose, the returns in increasing order, and which of them marks the
//! value-at-risk tail.
use vstd::prelude::*;
use crate::keys;

verus! {

broadcast use vstd::seq_lib::group_to_multiset_ensures;

/// Profit-and-loss profile of the returns of a set of paths (as order keys).
#[derive(Debug, Clone)]
pub struct ReturnProfile {
    /// The returns in increasing order.
    pub sorted: Vec<i64>,
    /// Number of paths with a positive return.
    pub profitable: usize,
    /// Number of paths with a negative return.
    pub losing: usize,
    /// Position in `sorted` of the value-at-risk return.
    pub var_index: usize,
}

/// `s` is in increasing order.
pub open spec fn is_sorted(s: Seq<i64>) -> bool {
    forall|i: int, j: int| 0 <= i <= j < s.len() ==> s[i] <= s[j]
}

/// Number of positive values in `s`.
pub open spec fn positive_count(s: Seq<i64>) -> nat
    decreases s.len(),
{
    if s.len() == 0 {
        0
    } else {
        positive_count(s.drop_last()) + if s.last() > keys::ZERO {
            1nat
        } else {
            0nat
        }
    }
}

/// Number of negative values in `s`.
pub open spec fn negative_count(s: Seq<i64>) -> nat
    decreases s.len(),
{
    if s.len() == 0 {
        0
    } else {
        negative_count(s.drop_last()) + if s.last() < keys::ZERO {
            1nat
        } else {
            0nat
        }
    }
}

proof fn lemma_counts_bounded(s: Seq<i64>)
    ensures
        positive_count(s) + negative_count(s) <= s.len(),
    decreases s.len(),
{
    if s.len() > 0 {
        lemma_counts_bounded(s.drop_last());
    }
}

/// The values of `values` in increasing order.
pub fn sort_keys(values: &[i64]) -> (sorted: Vec<i64>)
    ensures
        is_sorted(sorted@),
        sorted@.to_multiset() == values@.to_multiset(),
        sorted@.len() == values@.len(),
{
    let mut sorted: Vec<i64> = Vec::new();
    let mut i: usize = 0;
    while i < values.len()
        invariant
            i <= values@.len(),
            is_sorted(sorted@),
            sorted@.to_multiset() == values@.take(i as int).to_multiset(),
            sorted@.len() == i,
        decreases values@.len() - i,
    {
        let v = values[i];
        let mut pos: usize = 0;
        while pos < sorted.len() && sorted[pos] <= v
            invariant
                pos <= sorted@.len(),
                forall|j: int| 0 <= j < pos ==> sorted@[j] <= v,
            decreases sorted@.len() - pos,
        {
            pos += 1;
        }
        let ghost before = sorted@;
        sorted.insert(pos, v);
        proof {
            assert(values@.take(i + 1) =~= values@.take(i as int).push(v));
            assert(before.insert(pos as int, v).to_multiset() == before.to_multiset().insert(v));
            assert forall|a: int, b: int| 0 <= a <= b < sorted@.len() implies sorted@[a]
                <= sorted@[b] by {
                if b < pos {
                    assert(sorted@[a] == before[a] && sorted@[b] == before[b]);
                } else if b == pos {
                    if a < pos {
                        assert(sorted@[a] == before[a]);
                    }
                } else {
                    assert(sorted@[b] == before[b - 1]);
                    if pos < before.len() {
                        assert(before[pos as int] > v);
                        assert(before[pos as int] <= before[b - 1]);
                    }
                    if a < pos {
                        assert(sorted@[a] == before[a]);
                    } else if a > pos {
                        assert(sorted@[a] == before[a - 1]);
                    }
                }
            }
        }
        i += 1;
    }
    proof {
        assert(values@.take(values@.len() as int) =~= values@);
    }
    sorted
}

/// Count the positive and the negative values of `values`.
fn count_signs(values: &[i64]) -> (counts: (usize, usize))
    ensures
        counts.0 == positive_count(values@),
        counts.1 == negative_count(values@),
{
    let mut positive: usize = 0;
    let mut negative: usize = 0;
    let mut i: usize = 0;
    while i < values.len()
        invariant
            i <= values@.len(),
            positive == positive_count(values@.take(i as int)),
            negative == negative_count(values@.take(i as int)),
        decreases values@.len() - i,
    {
        proof {
            assert(values@.take(i + 1).drop_last() =~= values@.take(i as int));
            lemma_counts_bounded(values@.take(i as int));
        }
        if values[i] > keys::ZERO {
            positive += 1;
        } else if values[i] < keys::ZERO {
            negative += 1;
        }
        i += 1;
    }
    proof {
        assert(values@.take(values@.len() as int) =~= values@);
    }
    (positive, negative)
}

/// The profit-and-loss profile of the returns of a set of paths; `None` when
/// there is no return to analyse. The value-at-risk return is the one at
/// position `tail_index` (the caller's `floor(0.05 * n)` for `n` values) of
/// the increasing order, or the largest return when that position is past the
/// end.
pub fn portfolio_return_profile(portfolio_returns: &[i64], tail_index: usize) -> (profile: Option<
    ReturnProfile,
>)
    ensures
        profile is None <==> portfolio_returns@.len() == 0,
        profile matches Some(p) ==> {
            &&& is_sorted(p.sorted@)
            &&& p.sorted@.to_multiset() == portfolio_returns@.to_multiset()
            &&& p.sorted@.len() == portfolio_returns@.len()
            &&& p.profitable == positive_count(portfolio_returns@)
            &&& p.losing == negative_count(portfolio_returns@)
            &&& p.var_index == if tail_index < portfolio_returns@.len() {
                tail_index as int
            } else {
                portfolio_returns@.len() - 1
            }
        },
{
    if portfolio_returns.len() == 0 {
        return None;
    }
    let (profitable, losing) = count_signs(portfolio_returns);
    let sorted = sort_keys(portfolio_returns);
    let last = portfolio_returns.len() - 1;
    let var_index = if tail_index < last {
        tail_index
    } else {
        last
    };
    Some(ReturnProfile { sorted, profitable, losing, var_index })
}

/// `ranked` lists the positions of `values` from the smallest value to the
/// largest, equal values in the order of their positions. The order is strict
/// on (value, position), so each position appears once and the ranking of
/// `values` is unique.
pub open spec fn is_ranking(values: Seq<i64>, ranked: Seq<usize>) -> bool {
    &&& ranked.len() == values.len()
    &&& forall|k: int| 0 <= k < ranked.len() ==> (#[trigger] ranked[k]) < values.len()
    &&& forall|a: int, b: int|
        0 <= a < b < ranked.len() ==> values[#[trigger] ranked[a] as int] < values[#[trigger] ranked[b] as int]
            || (values[ranked[a] as int] == values[ranked[b] as int] && ranked[a] < ranked[b])
}

/// The positions of `values` ordered by value, ties by position (a stable
/// sort of the positions).
pub fn ranked_positions(values: &[i64]) -> (ranked: Vec<usize>)
    ensures
        is_ranking(values@, ranked@),
{
    let mut ranked: Vec<usize> = Vec::new();
    let mut i: usize = 0;
    while i < values.len()
        invariant
            i <= values@.len(),
            ranked@.len() == i,
            forall|k: int| 0 <= k < ranked@.len() ==> (#[trigger] ranked@[k]) < i,
            forall|a: int, b: int|
                0 <= a < b < ranked@.len() ==> values@[#[trigger] ranked@[a] as int]
                    < values@[#[trigger] ranked@[b] as int] || (values@[ranked@[a] as int]
                    == values@[ranked@[b] as int] && ranked@[a] < ranked@[b]),
        decreases values@.len() - i,
    {
        let v = values[i];
        let mut pos: usize = 0;
        while pos < ranked.len() && values[ranked[pos]] <= v
            invariant
                pos <= ranked@.len(),
                ranked@.len() == i,
                i < values@.len(),
                forall|k: int| 0 <= k < ranked@.len() ==> (#[trigger] ranked@[k]) < i,
                forall|j: int| 0 <= j < pos ==> values@[#[trigger] ranked@[j] as int] <= v,
            decreases ranked@.len() - pos,
        {
            pos += 1;
        }
        let ghost before = ranked@;
        ranked.insert(pos, i);
        proof {
            assert forall|k: int| 0 <= k < ranked@.len() implies (#[trigger] ranked@[k]) < i + 1 by {
                if k < pos {
                    assert(ranked@[k] == before[k]);
                } else if k > pos {
                    assert(ranked@[k] == before[k - 1]);
                }
            }
            assert forall|a: int, b: int| 0 <= a < b < ranked@.len() implies values@[
                #[trigger] ranked@[a] as int] < values@[#[trigger] ranked@[b] as int] || (
            values@[ranked@[a] as int] == values@[ranked@[b] as int] && ranked@[a] < ranked@[b]) by {
                if b < pos {
                    assert(ranked@[a] == before[a] && ranked@[b] == before[b]);
                } else if b == pos {
                    assert(ranked@[a] == before[a]);
                    assert(values@[before[a] as int] <= v);
                } else if a < pos {
                    assert(ranked@[a] == before[a] && ranked@[b] == before[b - 1]);
                    if pos < before.len() {
                        assert(values@[before[pos as int] as int] > v);
                    }
                } else if a == pos {
                    assert(ranked@[b] == before[b - 1]);
                    assert(values@[before[pos as int] as int] > v);
                    if b - 1 > pos {
                        assert(values@[before[pos as int] as int] <= values@[before[b - 1] as int]);
                    }
                } else {
                    assert(ranked@[a] == before[a - 1] && ranked@[b] == before[b - 1]);
                }
            }
        }
        i += 1;
    }
    ranked
}

/// The paths a chart highlights, from their terminal prices: `(worst,
/// median, best)`, the first, middle (`n / 2`) and last positions of the
/// ranking; `None` when there is no path.
pub fn highlighted_paths(terminal_prices: &[i64]) -> (chosen: Option<(usize, usize, usize)>)
    ensures
        chosen is None <==> terminal_prices@.len() == 0,
        chosen matches Some((worst, median, best)) ==> exists|ranked: Seq<usize>|
            is_ranking(terminal_prices@, ranked) && worst == ranked[0] && median == ranked[
                (terminal_prices@.len() / 2) as int] && best == ranked[terminal_prices@.len() - 1],
{
    if terminal_prices.len() == 0 {
        return None;
    }
    let ranked = ranked_positions(terminal_prices);
    let n = ranked.len();
    Some((ranked[0], ranked[n / 2], ranked[n - 1]))
}

/// The largest and the smallest value, `None` when there is none.
pub fn key_extremes(values: &[i64]) -> (extremes: Option<(i64, i64)>)
    ensures
        extremes is None <==> values@.len() == 0,
        extremes matches Some((largest, smallest)) ==> {
            &&& values@.contains(largest)
            &&& values@.contains(smallest)
            &&& forall|i: int| 0 <= i < values@.len() ==> smallest <= #[trigger] values@[i] <= largest
        },
{
    if values.len() == 0 {
        return None;
    }
    let mut largest = values[0];
    let mut smallest = values[0];
    let mut i: usize = 1;
    while i < values.len()
        invariant
            1 <= i <= values@.len(),
            values@.contains(largest),
            values@.contains(smallest),
            forall|j: int| 0 <= j < i ==> smallest <= #[trigger] values@[j] <= largest,
        decreases values@.len() - i,
    {
        if values[i] > largest {
            largest = values[i];
        }
        if values[i] < smallest {
            smallest = values[i];
        }
        i += 1;
    }
    Some((largest, smallest))
}

/// At most every path gains or loses: the profitable and losing counts never
/// add up to more than the number of values.
pub proof fn lemma_profit_and_loss_at_most_paths(values: Seq<i64>)
    ensures
        positive_count(values) + negative_count(values) <= values.len(),
{
    lemma_counts_bounded(values);
}

/// The first of the returns in increasing order is the smallest return, and
/// the last the largest.
pub proof fn lemma_sorted_ends_are_extremes(sorted: Seq<i64>, values: Seq<i64>)
    requires
        is_sorted(sorted),
        sorted.to_multiset() == values.to_multiset(),
        sorted.len() > 0,
    ensures
        forall|i: int| 0 <= i < values.len() ==> sorted[0] <= #[trigger] values[i] <= sorted[sorted.len() - 1],
        values.contains(sorted[0]),
        values.contains(sorted[sorted.len() - 1]),
{
    assert forall|i: int| 0 <= i < values.len() implies sorted[0] <= #[trigger] values[i]
        <= sorted[sorted.len() - 1] by {
        assert(values.to_multiset().count(values[i]) > 0);
        assert(sorted.contains(values[i]));
        let k = choose|k: int| 0 <= k < sorted.len() && sorted[k] == values[i];
    }
    assert(sorted.to_multiset().count(sorted[0]) > 0);
    assert(sorted.to_multiset().count(sorted[sorted.len() - 1]) > 0);
}

} // verus!
