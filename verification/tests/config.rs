use monte_carlo::config::{
    default_version, validate_config, ConfigError, GARCHParams, GBMParams, JumpDiffusionParams,
    SimConfig,
};
use monte_carlo::model::{
    create_model_params, model_kind, simulation_model_name, ModelKind, ModelParams,
};
use monte_carlo::portfolio::{Portfolio, PortfolioError, TickerConfig};

fn key(x: f64) -> i64 {
    let x = if x == 0.0 { 0.0 } else { x };
    let bits = x.to_bits() as i64;
    if bits >= 0 {
        bits
    } else {
        bits ^ i64::MAX
    }
}

fn one_ticker_portfolio() -> Portfolio {
    let mut p = Portfolio::new(key(1000.0));
    p.add_ticker(TickerConfig {
        symbol: "AAA".to_string(),
        initial_price: key(10.0),
        weight: key(1.0),
        stop_loss: Some(key(8.0)),
        target: Some(key(12.0)),
        model_params: ModelParams::Bootstrap {},
    })
    .unwrap();
    p
}

fn single(model_type: &str, params: ModelParams) -> SimConfig {
    SimConfig::new_single_ticker(key(100.0), 30, 10, 7, false, model_type.to_string(), params)
        .unwrap()
}

#[test]
fn version_is_two() {
    assert_eq!(default_version(), 2);
}

#[test]
fn portfolio_config_fields() {
    let c = SimConfig::new_portfolio(30, 100, 42, true, one_ticker_portfolio());
    assert_eq!(c.version, 2);
    assert_eq!(c.dt, key(1.0));
    assert!(c.is_portfolio());
    assert!(c.model_type.is_none() && c.initial_price.is_none());
    assert_eq!(validate_config(&c, true, true), Ok(()));
    assert_eq!(
        validate_config(&c, false, true),
        Err(ConfigError::Portfolio(PortfolioError::WeightsDoNotSumToOne))
    );
}

#[test]
fn single_ticker_config_places_params() {
    let c = single("GARCH", ModelParams::GARCH { omega: key(0.1), alpha: key(0.2), beta: key(0.3) });
    assert_eq!(c.version, 1);
    assert!(!c.is_portfolio());
    assert_eq!(c.initial_price, Some(key(100.0)));
    assert_eq!(
        c.garch_params,
        Some(GARCHParams { omega: key(0.1), alpha: key(0.2), beta: key(0.3) })
    );
    assert!(c.gbm_params.is_none() && c.jump_diffusion_params.is_none());
}

#[test]
fn to_model_params_round_trips() {
    let all = [
        ("GBM", ModelParams::GBM { mu: key(0.01), sigma: key(0.2) }),
        ("Bootstrap", ModelParams::Bootstrap {}),
        (
            "JumpDiffusion",
            ModelParams::JumpDiffusion {
                mu: key(0.01),
                sigma: key(0.2),
                lambda: key(1.0),
                mu_j: key(-0.1),
                sigma_j: key(0.3),
            },
        ),
        ("GARCH", ModelParams::GARCH { omega: key(0.1), alpha: key(0.2), beta: key(0.3) }),
    ];
    for (name, params) in all {
        assert_eq!(single(name, params).to_model_params(), Ok(params));
    }
}

#[test]
fn to_model_params_errors() {
    let c = SimConfig::new_portfolio(30, 100, 42, true, one_ticker_portfolio());
    assert_eq!(c.to_model_params(), Err(ConfigError::ModelTypeNotSpecified));
    let c = single("GBM", ModelParams::Bootstrap {});
    assert_eq!(c.to_model_params(), Err(ConfigError::ParamsNotFound(ModelKind::GBM)));
    let c = single("JumpDiffusion", ModelParams::Bootstrap {});
    assert_eq!(c.to_model_params(), Err(ConfigError::ParamsNotFound(ModelKind::JumpDiffusion)));
    let c = single("GARCH", ModelParams::Bootstrap {});
    assert_eq!(c.to_model_params(), Err(ConfigError::ParamsNotFound(ModelKind::GARCH)));
    let c = single("Heston", ModelParams::Bootstrap {});
    assert_eq!(c.to_model_params(), Err(ConfigError::UnknownModelType("Heston".to_string())));
}

#[test]
fn validate_config_basic_errors() {
    let mut c = single("Bootstrap", ModelParams::Bootstrap {});
    assert_eq!(validate_config(&c, true, true), Ok(()));
    c.horizon = 0;
    assert_eq!(validate_config(&c, true, true), Err(ConfigError::ZeroHorizon));
    c.horizon = 5;
    c.num_paths = 0;
    assert_eq!(validate_config(&c, true, true), Err(ConfigError::ZeroPaths));
    c.num_paths = 5;
    c.dt = key(0.0);
    assert_eq!(validate_config(&c, true, true), Err(ConfigError::NonPositiveDt));
    c.dt = key(1.0);
    c.initial_price = Some(key(0.0));
    assert_eq!(validate_config(&c, true, true), Err(ConfigError::NonPositiveInitialPrice));
    c.initial_price = None;
    c.model_type = None;
    assert_eq!(validate_config(&c, true, true), Ok(()));
    c.model_type = Some("Heston".to_string());
    assert_eq!(
        validate_config(&c, true, true),
        Err(ConfigError::UnknownModelType("Heston".to_string()))
    );
}

#[test]
fn validate_config_model_errors() {
    let mut c = single("GBM", ModelParams::GBM { mu: key(0.0), sigma: key(-0.1) });
    assert_eq!(validate_config(&c, true, true), Err(ConfigError::NegativeGbmSigma));
    c.gbm_params = None;
    assert_eq!(validate_config(&c, true, true), Err(ConfigError::ParamsMissing(ModelKind::GBM)));
    c.gbm_params = Some(GBMParams { mu: key(0.0), sigma: key(0.0) });
    assert_eq!(validate_config(&c, true, true), Ok(()));

    let jd = |lambda: f64, sigma: f64, sigma_j: f64| {
        single(
            "JumpDiffusion",
            ModelParams::JumpDiffusion {
                mu: key(0.0),
                sigma: key(sigma),
                lambda: key(lambda),
                mu_j: key(0.0),
                sigma_j: key(sigma_j),
            },
        )
    };
    assert_eq!(validate_config(&jd(-1.0, -1.0, -1.0), true, true), Err(ConfigError::NegativeJumpIntensity));
    assert_eq!(
        validate_config(&jd(1.0, -1.0, -1.0), true, true),
        Err(ConfigError::NegativeJumpDiffusionSigma)
    );
    assert_eq!(validate_config(&jd(1.0, 1.0, -1.0), true, true), Err(ConfigError::NegativeJumpVolatility));
    assert_eq!(validate_config(&jd(1.0, 1.0, 1.0), true, true), Ok(()));
    let mut missing = jd(1.0, 1.0, 1.0);
    missing.jump_diffusion_params = None;
    assert_eq!(
        validate_config(&missing, true, true),
        Err(ConfigError::ParamsMissing(ModelKind::JumpDiffusion))
    );
    let _ = JumpDiffusionParams { mu: 0, sigma: 0, lambda: 0, mu_j: 0, sigma_j: 0 };

    let garch = |omega: f64, alpha: f64, beta: f64| {
        single("GARCH", ModelParams::GARCH { omega: key(omega), alpha: key(alpha), beta: key(beta) })
    };
    assert_eq!(validate_config(&garch(0.0, 0.1, 0.1), true, true), Err(ConfigError::NonPositiveGarchOmega));
    assert_eq!(validate_config(&garch(0.1, -0.1, 0.1), true, true), Err(ConfigError::NegativeGarchAlpha));
    assert_eq!(validate_config(&garch(0.1, 0.1, -0.1), true, true), Err(ConfigError::NegativeGarchBeta));
    assert_eq!(validate_config(&garch(0.1, 0.6, 0.6), true, false), Err(ConfigError::GarchNotStationary));
    assert_eq!(validate_config(&garch(0.1, 0.1, 0.1), true, true), Ok(()));
    let mut missing = garch(0.1, 0.1, 0.1);
    missing.garch_params = None;
    assert_eq!(
        validate_config(&missing, true, true),
        Err(ConfigError::ParamsMissing(ModelKind::GARCH))
    );
}

#[test]
fn model_names() {
    assert_eq!(model_kind("GBM"), Some(ModelKind::GBM));
    assert_eq!(model_kind("Bootstrap"), Some(ModelKind::Bootstrap));
    assert_eq!(model_kind("JumpDiffusion"), Some(ModelKind::JumpDiffusion));
    assert_eq!(model_kind("GARCH"), Some(ModelKind::GARCH));
    assert_eq!(model_kind("gbm"), None);
    assert_eq!(simulation_model_name("GBM"), "GBM");
    assert_eq!(simulation_model_name("Bootstrap"), "Bootstrap");
    assert_eq!(simulation_model_name("GARCH"), "");
}

#[test]
fn create_model_params_defaults() {
    assert_eq!(
        create_model_params("GBM", key(0.1), key(0.2)),
        ModelParams::GBM { mu: key(0.1), sigma: key(0.2) }
    );
    assert_eq!(create_model_params("Bootstrap", key(0.1), key(0.2)), ModelParams::Bootstrap {});
    assert_eq!(
        create_model_params("JumpDiffusion", key(0.1), key(0.2)),
        ModelParams::JumpDiffusion {
            mu: key(0.1),
            sigma: key(0.2),
            lambda: key(2.0),
            mu_j: key(-0.02),
            sigma_j: key(0.05)
        }
    );
    assert_eq!(
        create_model_params("GARCH", key(0.1), key(0.2)),
        ModelParams::GARCH { omega: key(0.00001), alpha: key(0.1), beta: key(0.85) }
    );
    assert_eq!(
        create_model_params("Other", key(0.1), key(0.2)),
        ModelParams::GBM { mu: key(0.1), sigma: key(0.2) }
    );
}
