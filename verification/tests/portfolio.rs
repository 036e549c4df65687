use monte_carlo::barriers::{PRICE_100, PRICE_80, PRICE_85, PRICE_90, PRICE_92, PRICE_95};
use monte_carlo::keys;
use monte_carlo::model::ModelParams;
use monte_carlo::portfolio::{Portfolio, PortfolioError, TickerConfig};

fn key(x: f64) -> i64 {
    let x = if x == 0.0 { 0.0 } else { x };
    let bits = x.to_bits() as i64;
    if bits >= 0 {
        bits
    } else {
        bits ^ i64::MAX
    }
}

fn ticker(symbol: &str, price: f64, weight: f64) -> TickerConfig {
    TickerConfig {
        symbol: symbol.to_string(),
        initial_price: key(price),
        weight: key(weight),
        stop_loss: None,
        target: None,
        model_params: ModelParams::GBM { mu: key(0.0002), sigma: key(0.015) },
    }
}

fn symbols(p: &Portfolio) -> Vec<String> {
    p.tickers.iter().map(|t| t.symbol.clone()).collect()
}

#[test]
fn keys_of_fixed_numbers() {
    assert_eq!(keys::ZERO, key(0.0));
    assert_eq!(keys::ONE, key(1.0));
    assert_eq!(keys::DEFAULT_CAPITAL, key(100000.0));
    assert_eq!(keys::DEFAULT_JUMP_INTENSITY, key(2.0));
    assert_eq!(keys::DEFAULT_JUMP_MEAN, key(-0.02));
    assert_eq!(keys::DEFAULT_JUMP_VOLATILITY, key(0.05));
    assert_eq!(keys::DEFAULT_GARCH_OMEGA, key(0.00001));
    assert_eq!(keys::DEFAULT_GARCH_ALPHA, key(0.1));
    assert_eq!(keys::DEFAULT_GARCH_BETA, key(0.85));
    assert_eq!(
        [PRICE_100, PRICE_95, PRICE_92, PRICE_90, PRICE_85, PRICE_80],
        [key(100.0), key(95.0), key(92.0), key(90.0), key(85.0), key(80.0)]
    );
}

#[test]
fn new_and_default_portfolios_are_empty() {
    let p = Portfolio::new(key(5000.0));
    assert!(p.tickers.is_empty());
    assert_eq!(p.total_capital, key(5000.0));
    let d = Portfolio::default();
    assert!(d.tickers.is_empty());
    assert_eq!(d.total_capital, key(100000.0));
}

#[test]
fn add_ticker_appends_and_refuses_duplicates() {
    let mut p = Portfolio::new(key(1000.0));
    assert_eq!(p.add_ticker(ticker("AAA", 10.0, 0.5)), Ok(()));
    assert_eq!(p.add_ticker(ticker("BBB", 20.0, 0.5)), Ok(()));
    assert_eq!(symbols(&p), vec!["AAA", "BBB"]);
    assert_eq!(
        p.add_ticker(ticker("AAA", 30.0, 0.1)),
        Err(PortfolioError::DuplicateTicker("AAA".to_string()))
    );
    assert_eq!(symbols(&p), vec!["AAA", "BBB"]);
    assert_eq!(p.tickers[0].initial_price, key(10.0));
}

#[test]
fn remove_ticker_removes_or_reports_missing() {
    let mut p = Portfolio::new(key(1000.0));
    p.add_ticker(ticker("AAA", 10.0, 0.5)).unwrap();
    p.add_ticker(ticker("BBB", 20.0, 0.5)).unwrap();
    assert_eq!(p.remove_ticker("AAA"), Ok(()));
    assert_eq!(symbols(&p), vec!["BBB"]);
    assert_eq!(p.remove_ticker("AAA"), Err(PortfolioError::TickerNotFound("AAA".to_string())));
    assert_eq!(symbols(&p), vec!["BBB"]);
}

#[test]
fn remove_ticker_removes_every_match() {
    let mut p = Portfolio::new(key(1000.0));
    p.tickers.push(ticker("AAA", 10.0, 0.2));
    p.tickers.push(ticker("BBB", 10.0, 0.2));
    p.tickers.push(ticker("AAA", 11.0, 0.2));
    assert_eq!(p.remove_ticker("AAA"), Ok(()));
    assert_eq!(symbols(&p), vec!["BBB"]);
}

#[test]
fn remove_after_add_restores_the_portfolio() {
    let mut p = Portfolio::new(key(1000.0));
    p.add_ticker(ticker("AAA", 10.0, 0.5)).unwrap();
    let before = symbols(&p);
    p.add_ticker(ticker("CCC", 5.0, 0.5)).unwrap();
    p.remove_ticker("CCC").unwrap();
    assert_eq!(symbols(&p), before);
}

#[test]
fn get_ticker_finds_by_symbol() {
    let mut p = Portfolio::new(key(1000.0));
    p.add_ticker(ticker("AAA", 10.0, 0.5)).unwrap();
    p.add_ticker(ticker("BBB", 20.0, 0.5)).unwrap();
    assert_eq!(p.get_ticker("BBB").map(|t| t.initial_price), Some(key(20.0)));
    assert!(p.get_ticker("ZZZ").is_none());
}

#[test]
fn get_ticker_mut_changes_in_place() {
    let mut p = Portfolio::new(key(1000.0));
    p.add_ticker(ticker("AAA", 10.0, 0.5)).unwrap();
    p.add_ticker(ticker("BBB", 20.0, 0.5)).unwrap();
    if let Some(t) = p.get_ticker_mut("BBB") {
        t.stop_loss = Some(key(15.0));
    }
    assert_eq!(p.tickers[1].stop_loss, Some(key(15.0)));
    assert!(p.get_ticker_mut("ZZZ").is_none());
    assert_eq!(p.tickers.len(), 2);
}

#[test]
fn auto_balance_sets_every_weight() {
    let mut p = Portfolio::new(key(1000.0));
    p.add_ticker(ticker("AAA", 10.0, 0.9)).unwrap();
    p.add_ticker(ticker("BBB", 20.0, 0.1)).unwrap();
    p.auto_balance_weights(key(0.5));
    assert!(p.tickers.iter().all(|t| t.weight == key(0.5)));
    assert_eq!(p.tickers[1].initial_price, key(20.0));
    let mut empty = Portfolio::new(key(1.0));
    empty.auto_balance_weights(key(0.5));
    assert!(empty.tickers.is_empty());
}

#[test]
fn validate_reports_each_error() {
    let empty = Portfolio::new(key(1000.0));
    assert_eq!(empty.validate(true), Err(PortfolioError::NoTickers));

    let mut p = Portfolio::new(key(1000.0));
    p.add_ticker(ticker("AAA", 10.0, 0.5)).unwrap();
    p.add_ticker(ticker("BBB", 20.0, 0.5)).unwrap();
    assert_eq!(p.validate(true), Ok(()));
    assert_eq!(p.validate(false), Err(PortfolioError::WeightsDoNotSumToOne));

    p.tickers[1].weight = key(0.0);
    assert_eq!(
        p.validate(true),
        Err(PortfolioError::WeightOutOfRange { symbol: "BBB".to_string(), weight: key(0.0) })
    );
    p.tickers[1].weight = key(1.5);
    assert_eq!(
        p.validate(true),
        Err(PortfolioError::WeightOutOfRange { symbol: "BBB".to_string(), weight: key(1.5) })
    );
    p.tickers[1].weight = key(1.0);
    assert_eq!(p.validate(true), Ok(()));

    p.tickers[0].initial_price = key(-1.0);
    assert_eq!(
        p.validate(true),
        Err(PortfolioError::NonPositiveInitialPrice {
            symbol: "AAA".to_string(),
            initial_price: key(-1.0)
        })
    );
    p.tickers[0].initial_price = key(10.0);

    p.tickers[0].stop_loss = Some(key(10.0));
    assert_eq!(
        p.validate(true),
        Err(PortfolioError::StopLossNotBelowInitialPrice {
            symbol: "AAA".to_string(),
            stop_loss: key(10.0),
            initial_price: key(10.0)
        })
    );
    p.tickers[0].stop_loss = Some(key(9.0));
    p.tickers[0].target = Some(key(10.0));
    assert_eq!(
        p.validate(true),
        Err(PortfolioError::TargetNotAboveInitialPrice {
            symbol: "AAA".to_string(),
            target: key(10.0),
            initial_price: key(10.0)
        })
    );
    p.tickers[0].target = Some(key(12.0));
    assert_eq!(p.validate(true), Ok(()));
}

#[test]
fn validate_reports_the_first_bad_ticker_first() {
    let mut p = Portfolio::new(key(1000.0));
    p.tickers.push(ticker("AAA", -5.0, 0.5));
    p.tickers.push(ticker("BBB", 20.0, 2.0));
    assert_eq!(
        p.validate(true),
        Err(PortfolioError::NonPositiveInitialPrice {
            symbol: "AAA".to_string(),
            initial_price: key(-5.0)
        })
    );
}
