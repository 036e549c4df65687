//! Portfolios of tickers: membership by symbol, weights and validation.
use vstd::prelude::*;
use crate::keys;
use crate::model::ModelParams;

verus! {

/// Configuration for a single ticker in a portfolio (prices and weight as
/// order keys).
#[derive(Debug, Clone)]
pub struct TickerConfig {
    pub symbol: String,
    pub initial_price: i64,
    /// Portfolio weight, between 0 (excluded) and 1.
    pub weight: i64,
    /// Stop-loss price, if any.
    pub stop_loss: Option<i64>,
    /// Target price, if any.
    pub target: Option<i64>,
    /// Model configuration for this ticker.
    pub model_params: ModelParams,
}

/// Portfolio containing multiple tickers.
#[derive(Debug, Clone)]
pub struct Portfolio {
    pub tickers: Vec<TickerConfig>,
    pub total_capital: i64,
}

/// Why a portfolio operation or check failed.
#[derive(Debug, Clone, PartialEq, Eq)]
pub enum PortfolioError {
    /// A ticker with this symbol is already in the portfolio.
    DuplicateTicker(String),
    /// No ticker with this symbol is in the portfolio.
    TickerNotFound(String),
    /// The portfolio holds no ticker.
    NoTickers,
    /// The weights do not sum to one (within the tolerance).
    WeightsDoNotSumToOne,
    /// A weight is not in (0, 1].
    WeightOutOfRange { symbol: String, weight: i64 },
    /// An initial price is not positive.
    NonPositiveInitialPrice { symbol: String, initial_price: i64 },
    /// A stop loss is not below the initial price.
    StopLossNotBelowInitialPrice { symbol: String, stop_loss: i64, initial_price: i64 },
    /// A target is not above the initial price.
    TargetNotAboveInitialPrice { symbol: String, target: i64, initial_price: i64 },
}

/// Some ticker of `tickers` has the symbol `symbol`.
pub open spec fn has_symbol(tickers: Seq<TickerConfig>, symbol: Seq<char>) -> bool {
    exists|i: int| 0 <= i < tickers.len() && (#[trigger] tickers[i]).symbol@ == symbol
}

/// `i` is the position of the first ticker with symbol `symbol`.
pub open spec fn is_first_with_symbol(tickers: Seq<TickerConfig>, symbol: Seq<char>, i: int) -> bool {
    &&& 0 <= i < tickers.len()
    &&& tickers[i].symbol@ == symbol
    &&& forall|j: int| 0 <= j < i ==> (#[trigger] tickers[j]).symbol@ != symbol
}

/// The position of the first ticker with symbol `symbol`, if any.
pub open spec fn position_of(tickers: Seq<TickerConfig>, symbol: Seq<char>) -> Option<int> {
    if exists|i: int| is_first_with_symbol(tickers, symbol, i) {
        Some(choose|i: int| is_first_with_symbol(tickers, symbol, i))
    } else {
        None
    }
}

/// `tickers` without the tickers whose symbol is `symbol`, in order.
pub open spec fn without_symbol(tickers: Seq<TickerConfig>, symbol: Seq<char>) -> Seq<TickerConfig>
    decreases tickers.len(),
{
    if tickers.len() == 0 {
        tickers
    } else {
        let rest = without_symbol(tickers.drop_last(), symbol);
        if tickers.last().symbol@ == symbol {
            rest
        } else {
            rest.push(tickers.last())
        }
    }
}

/// No two tickers share a symbol.
pub open spec fn symbols_unique(tickers: Seq<TickerConfig>) -> bool {
    forall|i: int, j: int|
        0 <= i < tickers.len() && 0 <= j < tickers.len() && i != j ==> (#[trigger] tickers[i]).symbol@
            != (#[trigger] tickers[j]).symbol@
}

/// What is wrong with one ticker's configuration, checked in order: weight in
/// (0, 1], positive initial price, stop loss below and target above the
/// initial price.
pub open spec fn ticker_error(t: TickerConfig) -> Option<PortfolioError> {
    if t.weight <= keys::ZERO || t.weight > keys::ONE {
        Some(PortfolioError::WeightOutOfRange { symbol: t.symbol, weight: t.weight })
    } else if t.initial_price <= keys::ZERO {
        Some(
            PortfolioError::NonPositiveInitialPrice {
                symbol: t.symbol,
                initial_price: t.initial_price,
            },
        )
    } else if t.stop_loss matches Some(sl) && sl >= t.initial_price {
        Some(
            PortfolioError::StopLossNotBelowInitialPrice {
                symbol: t.symbol,
                stop_loss: t.stop_loss->0,
                initial_price: t.initial_price,
            },
        )
    } else if t.target matches Some(tg) && tg <= t.initial_price {
        Some(
            PortfolioError::TargetNotAboveInitialPrice {
                symbol: t.symbol,
                target: t.target->0,
                initial_price: t.initial_price,
            },
        )
    } else {
        None
    }
}

/// The error of the first misconfigured ticker, if any.
pub open spec fn first_ticker_error(tickers: Seq<TickerConfig>) -> Option<PortfolioError>
    decreases tickers.len(),
{
    if tickers.len() == 0 {
        None
    } else {
        match ticker_error(tickers[0]) {
            Some(e) => Some(e),
            None => first_ticker_error(tickers.drop_first()),
        }
    }
}

/// The outcome of validating a portfolio whose weights do (or do not) sum to
/// one within the tolerance.
pub open spec fn validation(tickers: Seq<TickerConfig>, weights_sum_to_one: bool) -> Result<
    (),
    PortfolioError,
> {
    if tickers.len() == 0 {
        Err(PortfolioError::NoTickers)
    } else if !weights_sum_to_one {
        Err(PortfolioError::WeightsDoNotSumToOne)
    } else {
        match first_ticker_error(tickers) {
            Some(e) => Err(e),
            None => Ok(()),
        }
    }
}

proof fn lemma_position_at(tickers: Seq<TickerConfig>, symbol: Seq<char>, i: int)
    requires
        is_first_with_symbol(tickers, symbol, i),
    ensures
        position_of(tickers, symbol) == Some(i),
{
    let c = choose|u: int| is_first_with_symbol(tickers, symbol, u);
    assert(is_first_with_symbol(tickers, symbol, c));
    if c < i {
        assert(tickers[c].symbol@ != symbol);
    }
    if i < c {
        assert(tickers[i].symbol@ != symbol);
    }
}

proof fn lemma_some_first_with_symbol(tickers: Seq<TickerConfig>, symbol: Seq<char>, j: int)
    requires
        0 <= j < tickers.len(),
        tickers[j].symbol@ == symbol,
    ensures
        exists|i: int| is_first_with_symbol(tickers, symbol, i),
    decreases j,
{
    if forall|k: int| 0 <= k < j ==> (#[trigger] tickers[k]).symbol@ != symbol {
        assert(is_first_with_symbol(tickers, symbol, j));
    } else {
        let k = choose|k: int| 0 <= k < j && (#[trigger] tickers[k]).symbol@ == symbol;
        lemma_some_first_with_symbol(tickers, symbol, k);
    }
}

/// What `position_of` is: the first position holding the symbol when some
/// ticker has it, and nothing otherwise.
pub proof fn lemma_position_of(tickers: Seq<TickerConfig>, symbol: Seq<char>)
    ensures
        match position_of(tickers, symbol) {
            Some(i) => is_first_with_symbol(tickers, symbol, i),
            None => !has_symbol(tickers, symbol),
        },
{
    if exists|i: int| is_first_with_symbol(tickers, symbol, i) {
        let i = choose|i: int| is_first_with_symbol(tickers, symbol, i);
        lemma_position_at(tickers, symbol, i);
    } else if has_symbol(tickers, symbol) {
        let j = choose|j: int| 0 <= j < tickers.len() && (#[trigger] tickers[j]).symbol@ == symbol;
        lemma_some_first_with_symbol(tickers, symbol, j);
    }
}

/// Removing a symbol that no ticker has leaves the tickers as they are.
pub proof fn lemma_without_absent_symbol(tickers: Seq<TickerConfig>, symbol: Seq<char>)
    requires
        !has_symbol(tickers, symbol),
    ensures
        without_symbol(tickers, symbol) == tickers,
    decreases tickers.len(),
{
    if tickers.len() > 0 {
        let init = tickers.drop_last();
        assert(!has_symbol(init, symbol)) by {
            if has_symbol(init, symbol) {
                let j = choose|j: int| 0 <= j < init.len() && (#[trigger] init[j]).symbol@ == symbol;
                assert(tickers[j] == init[j]);
            }
        }
        lemma_without_absent_symbol(init, symbol);
        assert(tickers[tickers.len() - 1] == tickers.last());
        assert(init.push(tickers.last()) =~= tickers);
    }
}

/// No ticker left after removing a symbol has that symbol, and every ticker
/// left was in the portfolio.
pub proof fn lemma_without_symbol_contents(tickers: Seq<TickerConfig>, symbol: Seq<char>)
    ensures
        !has_symbol(without_symbol(tickers, symbol), symbol),
        without_symbol(tickers, symbol).len() <= tickers.len(),
        forall|k: int|
            0 <= k < without_symbol(tickers, symbol).len() ==> tickers.contains(
                #[trigger] without_symbol(tickers, symbol)[k],
            ),
    decreases tickers.len(),
{
    if tickers.len() > 0 {
        let init = tickers.drop_last();
        lemma_without_symbol_contents(init, symbol);
        let rest = without_symbol(init, symbol);
        let out = without_symbol(tickers, symbol);
        assert forall|k: int| 0 <= k < out.len() implies tickers.contains(#[trigger] out[k]) by {
            if k < rest.len() {
                assert(out[k] == rest[k]);
                let m = choose|m: int| 0 <= m < init.len() && init[m] == rest[k];
                assert(tickers[m] == init[m]);
            } else {
                assert(out[k] == tickers[tickers.len() - 1]);
            }
        }
        if has_symbol(out, symbol) {
            let j = choose|j: int| 0 <= j < out.len() && (#[trigger] out[j]).symbol@ == symbol;
            if j < rest.len() {
                assert(out[j] == rest[j]);
            }
        }
    }
}

/// Removal keeps the relative order of the tickers it keeps, so symbols that
/// were unique stay unique.
pub proof fn lemma_without_symbol_keeps_unique(tickers: Seq<TickerConfig>, symbol: Seq<char>)
    requires
        symbols_unique(tickers),
    ensures
        symbols_unique(without_symbol(tickers, symbol)),
    decreases tickers.len(),
{
    if tickers.len() > 0 {
        let init = tickers.drop_last();
        assert(symbols_unique(init)) by {
            assert forall|i: int, j: int|
                0 <= i < init.len() && 0 <= j < init.len() && i != j implies (
                #[trigger] init[i]).symbol@ != (#[trigger] init[j]).symbol@ by {
                assert(init[i] == tickers[i] && init[j] == tickers[j]);
            }
        }
        lemma_without_symbol_keeps_unique(init, symbol);
        lemma_without_symbol_contents(init, symbol);
        let rest = without_symbol(init, symbol);
        let last = tickers.last();
        if last.symbol@ != symbol {
            let out = rest.push(last);
            assert(!has_symbol(init, last.symbol@)) by {
                if has_symbol(init, last.symbol@) {
                    let j = choose|j: int|
                        0 <= j < init.len() && (#[trigger] init[j]).symbol@ == last.symbol@;
                    assert(tickers[j] == init[j]);
                    assert(tickers[tickers.len() - 1] == last);
                }
            }
            assert forall|i: int, j: int|
                0 <= i < out.len() && 0 <= j < out.len() && i != j implies (
                #[trigger] out[i]).symbol@ != (#[trigger] out[j]).symbol@ by {
                if i < rest.len() && j < rest.len() {
                    assert(out[i] == rest[i] && out[j] == rest[j]);
                } else if i < rest.len() {
                    assert(out[i] == rest[i]);
                    assert(init.contains(rest[i]));
                    let m = choose|m: int| 0 <= m < init.len() && init[m] == rest[i];
                    assert(init[m].symbol@ == out[i].symbol@);
                } else if j < rest.len() {
                    assert(out[j] == rest[j]);
                    assert(init.contains(rest[j]));
                    let m = choose|m: int| 0 <= m < init.len() && init[m] == rest[j];
                    assert(init[m].symbol@ == out[j].symbol@);
                }
            }
        }
    }
}

proof fn lemma_first_ticker_error_skip(tickers: Seq<TickerConfig>, i: int)
    requires
        0 <= i < tickers.len(),
    ensures
        tickers.skip(i)[0] == tickers[i],
        tickers.skip(i).drop_first() == tickers.skip(i + 1),
        first_ticker_error(tickers.skip(i)) == match ticker_error(tickers[i]) {
            Some(e) => Some(e),
            None => first_ticker_error(tickers.skip(i + 1)),
        },
{
    assert(tickers.skip(i).drop_first() =~= tickers.skip(i + 1));
}

impl Portfolio {
    /// Create a new empty portfolio.
    pub fn new(total_capital: i64) -> (p: Self)
        ensures
            p.tickers@ == Seq::<TickerConfig>::empty(),
            p.total_capital == total_capital,
    {
        Portfolio { tickers: Vec::new(), total_capital }
    }

    /// Add a ticker to the portfolio; refused when a ticker with the same
    /// symbol is already there.
    pub fn add_ticker(&mut self, ticker_config: TickerConfig) -> (r: Result<(), PortfolioError>)
        ensures
            r is Ok <==> !has_symbol(old(self).tickers@, ticker_config.symbol@),
            r is Ok ==> final(self).tickers@ == old(self).tickers@.push(ticker_config),
            r matches Err(e) ==> e == PortfolioError::DuplicateTicker(ticker_config.symbol)
                && final(self).tickers@ == old(self).tickers@,
            final(self).total_capital == old(self).total_capital,
    {
        let mut i: usize = 0;
        while i < self.tickers.len()
            invariant
                i <= self.tickers@.len(),
                forall|j: int| 0 <= j < i ==> (#[trigger] self.tickers@[j]).symbol@ != ticker_config.symbol@,
            decreases self.tickers@.len() - i,
        {
            if self.tickers[i].symbol == ticker_config.symbol {
                return Err(PortfolioError::DuplicateTicker(ticker_config.symbol));
            }
            i += 1;
        }
        self.tickers.push(ticker_config);
        Ok(())
    }

    /// Remove every ticker with symbol `symbol`; refused, with the portfolio
    /// unchanged, when there is none.
    pub fn remove_ticker(&mut self, symbol: &str) -> (r: Result<(), PortfolioError>)
        ensures
            final(self).tickers@ == without_symbol(old(self).tickers@, symbol@),
            r is Ok <==> has_symbol(old(self).tickers@, symbol@),
            r is Err ==> final(self).tickers@ == old(self).tickers@,
            r matches Err(e) ==> (e matches PortfolioError::TickerNotFound(s) && s@ == symbol@),
            final(self).total_capital == old(self).total_capital,
    {
        let key = symbol.to_owned();
        let initial_len = self.tickers.len();
        let ghost original = self.tickers@;
        let mut rest: Vec<TickerConfig> = Vec::new();
        std::mem::swap(&mut rest, &mut self.tickers);
        let mut kept: Vec<TickerConfig> = Vec::new();
        let mut taken: usize = 0;
        while rest.len() > 0
            invariant
                taken + rest@.len() == original.len(),
                initial_len == original.len(),
                rest@ == original.skip(taken as int),
                kept@ == without_symbol(original.take(taken as int), symbol@),
                key@ == symbol@,
            decreases rest@.len(),
        {
            let t = rest.remove(0);
            proof {
                assert(original.take(taken + 1).drop_last() =~= original.take(taken as int));
                assert(original.take(taken + 1).last() == t);
                assert(rest@ =~= original.skip(taken + 1));
            }
            if t.symbol != key {
                kept.push(t);
            }
            taken += 1;
        }
        proof {
            assert(original.take(original.len() as int) =~= original);
            lemma_without_symbol_contents(original, symbol@);
        }
        let removed = kept.len() != initial_len;
        self.tickers = kept;
        if !removed {
            proof {
                if has_symbol(original, symbol@) {
                    lemma_without_symbol_len(original, symbol@);
                }
                lemma_without_absent_symbol(original, symbol@);
            }
            return Err(PortfolioError::TickerNotFound(key));
        }
        proof {
            if !has_symbol(original, symbol@) {
                lemma_without_absent_symbol(original, symbol@);
            }
        }
        Ok(())
    }

    /// Check the portfolio: it has a ticker, its weights sum to one (the
    /// caller's `weights_sum_to_one`, within 0.001), and each ticker is
    /// configured consistently (see `ticker_error`).
    pub fn validate(&self, weights_sum_to_one: bool) -> (r: Result<(), PortfolioError>)
        ensures
            r == validation(self.tickers@, weights_sum_to_one),
    {
        if self.tickers.len() == 0 {
            return Err(PortfolioError::NoTickers);
        }
        if !weights_sum_to_one {
            return Err(PortfolioError::WeightsDoNotSumToOne);
        }
        let mut i: usize = 0;
        assert(self.tickers@.skip(0) =~= self.tickers@);
        while i < self.tickers.len()
            invariant
                i <= self.tickers@.len(),
                first_ticker_error(self.tickers@) == first_ticker_error(self.tickers@.skip(i as int)),
                weights_sum_to_one,
                self.tickers@.len() > 0,
            decreases self.tickers@.len() - i,
        {
            proof {
                lemma_first_ticker_error_skip(self.tickers@, i as int);
            }
            let ticker = &self.tickers[i];
            if ticker.weight <= keys::ZERO || ticker.weight > keys::ONE {
                return Err(
                    PortfolioError::WeightOutOfRange {
                        symbol: ticker.symbol.clone(),
                        weight: ticker.weight,
                    },
                );
            }
            if ticker.initial_price <= keys::ZERO {
                return Err(
                    PortfolioError::NonPositiveInitialPrice {
                        symbol: ticker.symbol.clone(),
                        initial_price: ticker.initial_price,
                    },
                );
            }
            if let Some(stop_loss) = ticker.stop_loss {
                if stop_loss >= ticker.initial_price {
                    return Err(
                        PortfolioError::StopLossNotBelowInitialPrice {
                            symbol: ticker.symbol.clone(),
                            stop_loss,
                            initial_price: ticker.initial_price,
                        },
                    );
                }
            }
            if let Some(target) = ticker.target {
                if target <= ticker.initial_price {
                    return Err(
                        PortfolioError::TargetNotAboveInitialPrice {
                            symbol: ticker.symbol.clone(),
                            target,
                            initial_price: ticker.initial_price,
                        },
                    );
                }
            }
            i += 1;
        }
        proof {
            assert(self.tickers@.skip(self.tickers@.len() as int) =~= Seq::<TickerConfig>::empty());
        }
        Ok(())
    }

    /// Give every ticker the weight `equal_weight` (the caller's `1 / n` for
    /// `n` tickers); nothing else changes.
    pub fn auto_balance_weights(&mut self, equal_weight: i64)
        ensures
            final(self).tickers@.len() == old(self).tickers@.len(),
            forall|i: int|
                0 <= i < old(self).tickers@.len() ==> #[trigger] final(self).tickers@[i] == (
                TickerConfig { weight: equal_weight, ..old(self).tickers@[i] }),
            final(self).total_capital == old(self).total_capital,
    {
        let ghost original = self.tickers@;
        let mut i: usize = 0;
        while i < self.tickers.len()
            invariant
                self.tickers@.len() == original.len(),
                i <= original.len(),
                forall|j: int|
                    0 <= j < i ==> #[trigger] self.tickers@[j] == (TickerConfig {
                        weight: equal_weight,
                        ..original[j]
                    }),
                forall|j: int| i <= j < original.len() ==> #[trigger] self.tickers@[j] == original[j],
                self.total_capital == old(self).total_capital,
            decreases original.len() - i,
        {
            self.tickers[i].weight = equal_weight;
            i += 1;
        }
    }

    /// The first ticker with symbol `symbol`, if any.
    pub fn get_ticker(&self, symbol: &str) -> (r: Option<&TickerConfig>)
        ensures
            match position_of(self.tickers@, symbol@) {
                Some(i) => r == Some(&self.tickers@[i]),
                None => r is None,
            },
    {
        match self.position(symbol) {
            Some(i) => Some(&self.tickers[i]),
            None => None,
        }
    }

    /// The first ticker with symbol `symbol`, for changing in place.
    pub fn get_ticker_mut(&mut self, symbol: &str) -> (r: Option<&mut TickerConfig>)
        ensures
            match position_of(old(self).tickers@, symbol@) {
                Some(i) => r matches Some(t) && *t == old(self).tickers@[i]
                    && final(self).tickers@ == old(self).tickers@.update(i, *final(t))
                    && final(self).total_capital == old(self).total_capital,
                None => r is None && *final(self) == *old(self),
            },
    {
        match self.position(symbol) {
            Some(i) => Some(&mut self.tickers[i]),
            None => None,
        }
    }

    fn position(&self, symbol: &str) -> (r: Option<usize>)
        ensures
            r matches Some(i) ==> position_of(self.tickers@, symbol@) == Some(i as int),
            r is None ==> position_of(self.tickers@, symbol@) is None,
    {
        let key = symbol.to_owned();
        let mut i: usize = 0;
        while i < self.tickers.len()
            invariant
                i <= self.tickers@.len(),
                key@ == symbol@,
                forall|j: int| 0 <= j < i ==> (#[trigger] self.tickers@[j]).symbol@ != symbol@,
            decreases self.tickers@.len() - i,
        {
            if self.tickers[i].symbol == key {
                proof {
                    lemma_position_at(self.tickers@, symbol@, i as int);
                }
                return Some(i);
            }
            i += 1;
        }
        proof {
            lemma_position_of(self.tickers@, symbol@);
            if position_of(self.tickers@, symbol@) is Some {
                let k = position_of(self.tickers@, symbol@)->0;
                assert(self.tickers@[k].symbol@ == symbol@);
            }
        }
        None
    }
}

/// Removing a symbol that some ticker has shortens the portfolio.
pub proof fn lemma_without_symbol_len(tickers: Seq<TickerConfig>, symbol: Seq<char>)
    requires
        has_symbol(tickers, symbol),
    ensures
        without_symbol(tickers, symbol).len() < tickers.len(),
    decreases tickers.len(),
{
    let init = tickers.drop_last();
    lemma_without_symbol_contents(init, symbol);
    if tickers.last().symbol@ != symbol {
        assert(has_symbol(init, symbol)) by {
            let j = choose|j: int| 0 <= j < tickers.len() && (#[trigger] tickers[j]).symbol@ == symbol;
            assert(j < tickers.len() - 1);
            assert(init[j] == tickers[j]);
        }
        lemma_without_symbol_len(init, symbol);
    }
}

/// Removing the symbol of a ticker that was just added gives back the
/// tickers from before the addition.
pub proof fn lemma_remove_undoes_add(tickers: Seq<TickerConfig>, added: TickerConfig)
    requires
        !has_symbol(tickers, added.symbol@),
    ensures
        without_symbol(tickers.push(added), added.symbol@) == tickers,
{
    assert(tickers.push(added).drop_last() =~= tickers);
    lemma_without_absent_symbol(tickers, added.symbol@);
}

/// After a ticker is added, looking its symbol up finds it (at the end), and
/// adding the symbol again is refused.
pub proof fn lemma_lookup_after_add(tickers: Seq<TickerConfig>, added: TickerConfig)
    requires
        !has_symbol(tickers, added.symbol@),
    ensures
        position_of(tickers.push(added), added.symbol@) == Some(tickers.len() as int),
        has_symbol(tickers.push(added), added.symbol@),
{
    let grown = tickers.push(added);
    assert(grown[tickers.len() as int] == added);
    assert forall|j: int| 0 <= j < tickers.len() implies (#[trigger] grown[j]).symbol@
        != added.symbol@ by {
        assert(grown[j] == tickers[j]);
    }
    lemma_position_at(grown, added.symbol@, tickers.len() as int);
}

/// Adding a ticker whose symbol is new keeps the symbols unique.
pub proof fn lemma_add_keeps_unique(tickers: Seq<TickerConfig>, added: TickerConfig)
    requires
        symbols_unique(tickers),
        !has_symbol(tickers, added.symbol@),
    ensures
        symbols_unique(tickers.push(added)),
{
    let grown = tickers.push(added);
    assert forall|i: int, j: int|
        0 <= i < grown.len() && 0 <= j < grown.len() && i != j implies (#[trigger] grown[i]).symbol@
        != (#[trigger] grown[j]).symbol@ by {
        if i < tickers.len() {
            assert(grown[i] == tickers[i]);
        }
        if j < tickers.len() {
            assert(grown[j] == tickers[j]);
        }
    }
}

/// A portfolio that passes validation holds at least one ticker, and every
/// ticker in it has a weight in (0, 1], a positive initial price, a stop loss
/// below and a target above its initial price.
pub proof fn lemma_valid_portfolio_tickers(tickers: Seq<TickerConfig>, weights_sum_to_one: bool)
    requires
        validation(tickers, weights_sum_to_one) is Ok,
    ensures
        tickers.len() > 0,
        weights_sum_to_one,
        forall|i: int| 0 <= i < tickers.len() ==> ticker_error(#[trigger] tickers[i]) is None,
{
    lemma_no_ticker_error(tickers);
}

/// A portfolio passes validation exactly when it holds a ticker, its weights
/// sum to one, and every ticker has a weight above zero and at most one, a
/// positive initial price, a stop loss (if any) strictly below its initial
/// price and a target (if any) strictly above it.
pub proof fn lemma_validation_on_fields(tickers: Seq<TickerConfig>, weights_sum_to_one: bool)
    ensures
        validation(tickers, weights_sum_to_one) is Ok <==> {
            &&& tickers.len() > 0
            &&& weights_sum_to_one
            &&& forall|i: int|
                0 <= i < tickers.len() ==> {
                    let t = #[trigger] tickers[i];
                    &&& keys::ZERO < t.weight <= keys::ONE
                    &&& t.initial_price > keys::ZERO
                    &&& (t.stop_loss matches Some(sl) ==> sl < t.initial_price)
                    &&& (t.target matches Some(tg) ==> tg > t.initial_price)
                }
        },
{
    if validation(tickers, weights_sum_to_one) is Ok {
        lemma_no_ticker_error(tickers);
        assert forall|i: int| 0 <= i < tickers.len() implies {
            let t = #[trigger] tickers[i];
            &&& keys::ZERO < t.weight <= keys::ONE
            &&& t.initial_price > keys::ZERO
            &&& (t.stop_loss matches Some(sl) ==> sl < t.initial_price)
            &&& (t.target matches Some(tg) ==> tg > t.initial_price)
        } by {
            assert(ticker_error(tickers[i]) is None);
        }
    }
    if forall|i: int|
        0 <= i < tickers.len() ==> {
            let t = #[trigger] tickers[i];
            &&& keys::ZERO < t.weight <= keys::ONE
            &&& t.initial_price > keys::ZERO
            &&& (t.stop_loss matches Some(sl) ==> sl < t.initial_price)
            &&& (t.target matches Some(tg) ==> tg > t.initial_price)
        } {
        assert forall|i: int| 0 <= i < tickers.len() implies ticker_error(#[trigger] tickers[i])
            is None by {
            let t = tickers[i];
            assert(keys::ZERO < t.weight <= keys::ONE);
        }
        lemma_all_tickers_fine(tickers);
    }
}

proof fn lemma_all_tickers_fine(tickers: Seq<TickerConfig>)
    requires
        forall|i: int| 0 <= i < tickers.len() ==> ticker_error(#[trigger] tickers[i]) is None,
    ensures
        first_ticker_error(tickers) is None,
    decreases tickers.len(),
{
    if tickers.len() > 0 {
        let rest = tickers.drop_first();
        assert forall|i: int| 0 <= i < rest.len() implies ticker_error(#[trigger] rest[i]) is None by {
            assert(rest[i] == tickers[i + 1]);
        }
        lemma_all_tickers_fine(rest);
        assert(ticker_error(tickers[0]) is None);
    }
}

proof fn lemma_no_ticker_error(tickers: Seq<TickerConfig>)
    requires
        first_ticker_error(tickers) is None,
    ensures
        forall|i: int| 0 <= i < tickers.len() ==> ticker_error(#[trigger] tickers[i]) is None,
    decreases tickers.len(),
{
    if tickers.len() > 0 {
        lemma_no_ticker_error(tickers.drop_first());
        assert forall|i: int| 0 <= i < tickers.len() implies ticker_error(#[trigger] tickers[i])
            is None by {
            if i > 0 {
                assert(tickers[i] == tickers.drop_first()[i - 1]);
            }
        }
    }
}

impl Default for Portfolio {
    /// An empty portfolio with a capital of 100000.
    fn default() -> (p: Self)
        ensures
            p.tickers@ == Seq::<TickerConfig>::empty(),
            p.total_capital == keys::DEFAULT_CAPITAL,
    {
        Portfolio::new(keys::DEFAULT_CAPITAL)
    }
}

} // verus!
