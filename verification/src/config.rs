//! Simulation configuration: construction, model-parameter dispatch and
//! validation. A configuration either holds a portfolio or, in the older
//! single-ticker form, an initial price, a model name and that model's
//! parameters.
use vstd::prelude::*;
use crate::keys;
use crate::model::{ModelKind, ModelParams, kind_named, kind_name, params_kind, lemma_kind_name_denotes_kind, model_kind};
use crate::portfolio::{Portfolio, PortfolioError, validation};

verus! {

/// Parameters of geometric Brownian motion.
#[derive(Debug, Clone, Copy, PartialEq, Eq, Structural)]
pub struct GBMParams {
    pub mu: i64,
    pub sigma: i64,
}

/// Parameters of the jump-diffusion model.
#[derive(Debug, Clone, Copy, PartialEq, Eq, Structural)]
pub struct JumpDiffusionParams {
    pub mu: i64,
    pub sigma: i64,
    pub lambda: i64,
    pub mu_j: i64,
    pub sigma_j: i64,
}

/// Parameters of the GARCH(1,1) model.
#[derive(Debug, Clone, Copy, PartialEq, Eq, Structural)]
pub struct GARCHParams {
    pub omega: i64,
    pub alpha: i64,
    pub beta: i64,
}

/// Configuration for a simulation (portfolio or single ticker).
#[derive(Debug, Clone)]
pub struct SimConfig {
    /// Configuration format version.
    pub version: u32,
    pub horizon: usize,
    pub num_paths: usize,
    pub seed: u64,
    pub use_antithetic: bool,
    /// Time step (as an order key).
    pub dt: i64,
    pub portfolio: Option<Portfolio>,
    pub initial_price: Option<i64>,
    pub model_type: Option<String>,
    pub gbm_params: Option<GBMParams>,
    pub jump_diffusion_params: Option<JumpDiffusionParams>,
    pub garch_params: Option<GARCHParams>,
}

/// Why a configuration is refused.
#[derive(Debug, Clone, PartialEq, Eq)]
pub enum ConfigError {
    ZeroHorizon,
    ZeroPaths,
    NonPositiveDt,
    /// The portfolio is refused.
    Portfolio(PortfolioError),
    NonPositiveInitialPrice,
    /// No model name is given.
    ModelTypeNotSpecified,
    /// The named model's parameters are absent (when converting).
    ParamsNotFound(ModelKind),
    /// The named model's parameters are absent (when validating).
    ParamsMissing(ModelKind),
    UnknownModelType(String),
    NegativeGbmSigma,
    NegativeJumpIntensity,
    NegativeJumpDiffusionSigma,
    NegativeJumpVolatility,
    NonPositiveGarchOmega,
    NegativeGarchAlpha,
    NegativeGarchBeta,
    /// alpha + beta is not below one.
    GarchNotStationary,
}

/// Configuration format version written by this library (portfolio support).
pub fn default_version() -> (v: u32)
    ensures
        v == 2,
{
    2
}

/// The configuration that `SimConfig::new_portfolio` builds.
pub open spec fn portfolio_config(
    horizon: usize,
    num_paths: usize,
    seed: u64,
    use_antithetic: bool,
    portfolio: Portfolio,
) -> SimConfig {
    SimConfig {
        version: 2,
        horizon,
        num_paths,
        seed,
        use_antithetic,
        dt: keys::ONE,
        portfolio: Some(portfolio),
        initial_price: None,
        model_type: None,
        gbm_params: None,
        jump_diffusion_params: None,
        garch_params: None,
    }
}

/// The configuration that `SimConfig::new_single_ticker` builds: the model's
/// parameters go to the field of their model.
pub open spec fn single_ticker_config(
    initial_price: i64,
    horizon: usize,
    num_paths: usize,
    seed: u64,
    use_antithetic: bool,
    model_type: String,
    model_params: ModelParams,
) -> SimConfig {
    SimConfig {
        version: 1,
        horizon,
        num_paths,
        seed,
        use_antithetic,
        dt: keys::ONE,
        portfolio: None,
        initial_price: Some(initial_price),
        model_type: Some(model_type),
        gbm_params: match model_params {
            ModelParams::GBM { mu, sigma } => Some(GBMParams { mu, sigma }),
            _ => None,
        },
        jump_diffusion_params: match model_params {
            ModelParams::JumpDiffusion { mu, sigma, lambda, mu_j, sigma_j } => Some(
                JumpDiffusionParams { mu, sigma, lambda, mu_j, sigma_j },
            ),
            _ => None,
        },
        garch_params: match model_params {
            ModelParams::GARCH { omega, alpha, beta } => Some(GARCHParams { omega, alpha, beta }),
            _ => None,
        },
    }
}

/// The model parameters a single-ticker configuration names, or why it names
/// none.
pub open spec fn configured_model_params(config: SimConfig) -> Result<ModelParams, ConfigError> {
    match config.model_type {
        None => Err(ConfigError::ModelTypeNotSpecified),
        Some(name) => match kind_named(name@) {
            Some(ModelKind::GBM) => match config.gbm_params {
                Some(p) => Ok(ModelParams::GBM { mu: p.mu, sigma: p.sigma }),
                None => Err(ConfigError::ParamsNotFound(ModelKind::GBM)),
            },
            Some(ModelKind::Bootstrap) => Ok(ModelParams::Bootstrap {  }),
            Some(ModelKind::JumpDiffusion) => match config.jump_diffusion_params {
                Some(p) => Ok(
                    ModelParams::JumpDiffusion {
                        mu: p.mu,
                        sigma: p.sigma,
                        lambda: p.lambda,
                        mu_j: p.mu_j,
                        sigma_j: p.sigma_j,
                    },
                ),
                None => Err(ConfigError::ParamsNotFound(ModelKind::JumpDiffusion)),
            },
            Some(ModelKind::GARCH) => match config.garch_params {
                Some(p) => Ok(ModelParams::GARCH { omega: p.omega, alpha: p.alpha, beta: p.beta }),
                None => Err(ConfigError::ParamsNotFound(ModelKind::GARCH)),
            },
            None => Err(ConfigError::UnknownModelType(name)),
        },
    }
}

/// The outcome of checking a single-ticker model's parameters, given whether
/// the GARCH persistence alpha + beta is below one.
pub open spec fn legacy_params_check(
    config: SimConfig,
    model_type: String,
    garch_persistence_below_one: bool,
) -> Result<(), ConfigError> {
    match kind_named(model_type@) {
        Some(ModelKind::GBM) => match config.gbm_params {
            Some(p) => if p.sigma < keys::ZERO {
                Err(ConfigError::NegativeGbmSigma)
            } else {
                Ok(())
            },
            None => Err(ConfigError::ParamsMissing(ModelKind::GBM)),
        },
        Some(ModelKind::JumpDiffusion) => match config.jump_diffusion_params {
            Some(p) => if p.lambda < keys::ZERO {
                Err(ConfigError::NegativeJumpIntensity)
            } else if p.sigma < keys::ZERO {
                Err(ConfigError::NegativeJumpDiffusionSigma)
            } else if p.sigma_j < keys::ZERO {
                Err(ConfigError::NegativeJumpVolatility)
            } else {
                Ok(())
            },
            None => Err(ConfigError::ParamsMissing(ModelKind::JumpDiffusion)),
        },
        Some(ModelKind::GARCH) => match config.garch_params {
            Some(p) => if p.omega <= keys::ZERO {
                Err(ConfigError::NonPositiveGarchOmega)
            } else if p.alpha < keys::ZERO {
                Err(ConfigError::NegativeGarchAlpha)
            } else if p.beta < keys::ZERO {
                Err(ConfigError::NegativeGarchBeta)
            } else if !garch_persistence_below_one {
                Err(ConfigError::GarchNotStationary)
            } else {
                Ok(())
            },
            None => Err(ConfigError::ParamsMissing(ModelKind::GARCH)),
        },
        Some(ModelKind::Bootstrap) => Ok(()),
        None => Err(ConfigError::UnknownModelType(model_type)),
    }
}

/// The outcome of validating a configuration. The caller supplies the two
/// facts that need arithmetic on the numbers: whether the portfolio weights sum
/// to one within 0.001, and whether the GARCH persistence alpha + beta is below
/// one.
pub open spec fn config_validation(
    config: SimConfig,
    weights_sum_to_one: bool,
    garch_persistence_below_one: bool,
) -> Result<(), ConfigError> {
    if config.horizon == 0 {
        Err(ConfigError::ZeroHorizon)
    } else if config.num_paths == 0 {
        Err(ConfigError::ZeroPaths)
    } else if config.dt <= keys::ZERO {
        Err(ConfigError::NonPositiveDt)
    } else {
        match config.portfolio {
            Some(p) => match validation(p.tickers@, weights_sum_to_one) {
                Ok(()) => Ok(()),
                Err(e) => Err(ConfigError::Portfolio(e)),
            },
            None => if config.initial_price matches Some(ip) && ip <= keys::ZERO {
                Err(ConfigError::NonPositiveInitialPrice)
            } else {
                match config.model_type {
                    Some(name) => legacy_params_check(config, name, garch_persistence_below_one),
                    None => Ok(()),
                }
            },
        }
    }
}

impl SimConfig {
    /// Create a portfolio-based configuration (version 2, unit time step).
    pub fn new_portfolio(
        horizon: usize,
        num_paths: usize,
        seed: u64,
        use_antithetic: bool,
        portfolio: Portfolio,
    ) -> (config: Self)
        ensures
            config == portfolio_config(horizon, num_paths, seed, use_antithetic, portfolio),
    {
        SimConfig {
            version: 2,
            horizon,
            num_paths,
            seed,
            use_antithetic,
            dt: keys::ONE,
            portfolio: Some(portfolio),
            initial_price: None,
            model_type: None,
            gbm_params: None,
            jump_diffusion_params: None,
            garch_params: None,
        }
    }

    /// Create a single-ticker configuration (version 1, unit time step); the
    /// model's parameters go to the field of their model. It always succeeds.
    pub fn new_single_ticker(
        initial_price: i64,
        horizon: usize,
        num_paths: usize,
        seed: u64,
        use_antithetic: bool,
        model_type: String,
        model_params: ModelParams,
    ) -> (r: Result<Self, ConfigError>)
        ensures
            r == Ok::<SimConfig, ConfigError>(
                single_ticker_config(
                    initial_price,
                    horizon,
                    num_paths,
                    seed,
                    use_antithetic,
                    model_type,
                    model_params,
                ),
            ),
    {
        let mut config = SimConfig {
            version: 1,
            horizon,
            num_paths,
            seed,
            use_antithetic,
            dt: keys::ONE,
            portfolio: None,
            initial_price: Some(initial_price),
            model_type: Some(model_type),
            gbm_params: None,
            jump_diffusion_params: None,
            garch_params: None,
        };
        match model_params {
            ModelParams::GBM { mu, sigma } => {
                config.gbm_params = Some(GBMParams { mu, sigma });
            },
            ModelParams::Bootstrap {  } => {},
            ModelParams::JumpDiffusion { mu, sigma, lambda, mu_j, sigma_j } => {
                config.jump_diffusion_params = Some(
                    JumpDiffusionParams { mu, sigma, lambda, mu_j, sigma_j },
                );
            },
            ModelParams::GARCH { omega, alpha, beta } => {
                config.garch_params = Some(GARCHParams { omega, alpha, beta });
            },
        }
        Ok(config)
    }

    /// Whether this is a portfolio configuration.
    pub fn is_portfolio(&self) -> (b: bool)
        ensures
            b == self.portfolio is Some,
    {
        self.portfolio.is_some()
    }

    /// The model parameters a single-ticker configuration names.
    pub fn to_model_params(&self) -> (r: Result<ModelParams, ConfigError>)
        ensures
            r == configured_model_params(*self),
    {
        let model_type = match &self.model_type {
            Some(m) => m,
            None => {
                return Err(ConfigError::ModelTypeNotSpecified);
            },
        };
        match model_kind(model_type.as_str()) {
            Some(ModelKind::GBM) => match &self.gbm_params {
                Some(p) => Ok(ModelParams::GBM { mu: p.mu, sigma: p.sigma }),
                None => Err(ConfigError::ParamsNotFound(ModelKind::GBM)),
            },
            Some(ModelKind::Bootstrap) => Ok(ModelParams::Bootstrap {  }),
            Some(ModelKind::JumpDiffusion) => match &self.jump_diffusion_params {
                Some(p) => Ok(
                    ModelParams::JumpDiffusion {
                        mu: p.mu,
                        sigma: p.sigma,
                        lambda: p.lambda,
                        mu_j: p.mu_j,
                        sigma_j: p.sigma_j,
                    },
                ),
                None => Err(ConfigError::ParamsNotFound(ModelKind::JumpDiffusion)),
            },
            Some(ModelKind::GARCH) => match &self.garch_params {
                Some(p) => Ok(ModelParams::GARCH { omega: p.omega, alpha: p.alpha, beta: p.beta }),
                None => Err(ConfigError::ParamsNotFound(ModelKind::GARCH)),
            },
            None => Err(ConfigError::UnknownModelType(model_type.clone())),
        }
    }
}

/// Validate a configuration (see `config_validation`).
pub fn validate_config(
    config: &SimConfig,
    weights_sum_to_one: bool,
    garch_persistence_below_one: bool,
) -> (r: Result<(), ConfigError>)
    ensures
        r == config_validation(*config, weights_sum_to_one, garch_persistence_below_one),
{
    if config.horizon == 0 {
        return Err(ConfigError::ZeroHorizon);
    }
    if config.num_paths == 0 {
        return Err(ConfigError::ZeroPaths);
    }
    if config.dt <= keys::ZERO {
        return Err(ConfigError::NonPositiveDt);
    }
    if let Some(portfolio) = &config.portfolio {
        match portfolio.validate(weights_sum_to_one) {
            Ok(()) => {},
            Err(e) => {
                return Err(ConfigError::Portfolio(e));
            },
        }
    } else {
        if let Some(initial_price) = config.initial_price {
            if initial_price <= keys::ZERO {
                return Err(ConfigError::NonPositiveInitialPrice);
            }
        }
        if let Some(model_type) = &config.model_type {
            return validate_legacy_model_params(config, model_type, garch_persistence_below_one);
        }
    }
    Ok(())
}

/// Validate a single-ticker model's parameters.
fn validate_legacy_model_params(
    config: &SimConfig,
    model_type: &String,
    garch_persistence_below_one: bool,
) -> (r: Result<(), ConfigError>)
    ensures
        r == legacy_params_check(*config, *model_type, garch_persistence_below_one),
{
    match model_kind(model_type.as_str()) {
        Some(ModelKind::GBM) => {
            if let Some(p) = &config.gbm_params {
                if p.sigma < keys::ZERO {
                    return Err(ConfigError::NegativeGbmSigma);
                }
            } else {
                return Err(ConfigError::ParamsMissing(ModelKind::GBM));
            }
        },
        Some(ModelKind::JumpDiffusion) => {
            if let Some(p) = &config.jump_diffusion_params {
                if p.lambda < keys::ZERO {
                    return Err(ConfigError::NegativeJumpIntensity);
                }
                if p.sigma < keys::ZERO {
                    return Err(ConfigError::NegativeJumpDiffusionSigma);
                }
                if p.sigma_j < keys::ZERO {
                    return Err(ConfigError::NegativeJumpVolatility);
                }
            } else {
                return Err(ConfigError::ParamsMissing(ModelKind::JumpDiffusion));
            }
        },
        Some(ModelKind::GARCH) => {
            if let Some(p) = &config.garch_params {
                if p.omega <= keys::ZERO {
                    return Err(ConfigError::NonPositiveGarchOmega);
                }
                if p.alpha < keys::ZERO {
                    return Err(ConfigError::NegativeGarchAlpha);
                }
                if p.beta < keys::ZERO {
                    return Err(ConfigError::NegativeGarchBeta);
                }
                if !garch_persistence_below_one {
                    return Err(ConfigError::GarchNotStationary);
                }
            } else {
                return Err(ConfigError::ParamsMissing(ModelKind::GARCH));
            }
        },
        Some(ModelKind::Bootstrap) => {},
        None => {
            return Err(ConfigError::UnknownModelType(model_type.clone()));
        },
    }
    Ok(())
}

/// A single-ticker configuration built from model parameters under their
/// model's name gives those parameters back.
pub proof fn lemma_single_ticker_params_round_trip(
    initial_price: i64,
    horizon: usize,
    num_paths: usize,
    seed: u64,
    use_antithetic: bool,
    model_type: String,
    model_params: ModelParams,
)
    requires
        model_type@ == kind_name(params_kind(model_params)),
    ensures
        configured_model_params(
            single_ticker_config(
                initial_price,
                horizon,
                num_paths,
                seed,
                use_antithetic,
                model_type,
                model_params,
            ),
        ) == Ok::<ModelParams, ConfigError>(model_params),
{
    lemma_kind_name_denotes_kind(params_kind(model_params));
}

/// A portfolio configuration is valid exactly when its horizon and path count
/// are positive and its portfolio is valid; its portfolio's error is the one
/// reported.
pub proof fn lemma_portfolio_config_validation(
    horizon: usize,
    num_paths: usize,
    seed: u64,
    use_antithetic: bool,
    portfolio: Portfolio,
    weights_sum_to_one: bool,
    garch_persistence_below_one: bool,
)
    ensures
        config_validation(
            portfolio_config(horizon, num_paths, seed, use_antithetic, portfolio),
            weights_sum_to_one,
            garch_persistence_below_one,
        ) == if horizon == 0 {
            Err(ConfigError::ZeroHorizon)
        } else if num_paths == 0 {
            Err(ConfigError::ZeroPaths)
        } else {
            match validation(portfolio.tickers@, weights_sum_to_one) {
                Ok(()) => Ok(()),
                Err(e) => Err(ConfigError::Portfolio(e)),
            }
        },
{
}


proof fn lemma_named(name: Seq<char>)
    ensures
        name == "GBM"@ ==> kind_named(name) == Some(ModelKind::GBM),
        name == "Bootstrap"@ ==> kind_named(name) == Some(ModelKind::Bootstrap),
        name == "JumpDiffusion"@ ==> kind_named(name) == Some(ModelKind::JumpDiffusion),
        name == "GARCH"@ ==> kind_named(name) == Some(ModelKind::GARCH),
{
    lemma_kind_name_denotes_kind(ModelKind::GBM);
    lemma_kind_name_denotes_kind(ModelKind::Bootstrap);
    lemma_kind_name_denotes_kind(ModelKind::JumpDiffusion);
    lemma_kind_name_denotes_kind(ModelKind::GARCH);
}

/// A valid configuration has a positive horizon, a positive number of paths
/// and a positive time step.
pub proof fn lemma_valid_config_basics(
    config: SimConfig,
    weights_sum_to_one: bool,
    garch_persistence_below_one: bool,
)
    requires
        config_validation(config, weights_sum_to_one, garch_persistence_below_one) is Ok,
    ensures
        config.horizon > 0,
        config.num_paths > 0,
        config.dt > keys::ZERO,
{
}

/// A single-ticker configuration with a positive horizon, path count and time
/// step, and a positive initial price if it has one, is valid exactly when
/// the parameters of the model it names are present and within range: GBM
/// needs a non-negative sigma; jump diffusion a non-negative lambda, sigma and
/// sigma_j, whatever its drift mu and mean jump mu_j; GARCH a positive omega,
/// non-negative alpha and beta, and alpha + beta below one; bootstrap needs
/// nothing.
pub proof fn lemma_single_ticker_validation_on_fields(
    config: SimConfig,
    weights_sum_to_one: bool,
    garch_persistence_below_one: bool,
)
    requires
        config.portfolio is None,
        config.model_type is Some,
        config.horizon > 0,
        config.num_paths > 0,
        config.dt > keys::ZERO,
        config.initial_price matches Some(ip) ==> ip > keys::ZERO,
    ensures
        ({
            let name = config.model_type->0@;
            let valid = config_validation(config, weights_sum_to_one, garch_persistence_below_one)
                is Ok;
            &&& name == "GBM"@ ==> (valid <==> (config.gbm_params matches Some(p) && p.sigma
                >= keys::ZERO))
            &&& name == "JumpDiffusion"@ ==> (valid <==> (config.jump_diffusion_params matches Some(
                p,
            ) && p.lambda >= keys::ZERO && p.sigma >= keys::ZERO && p.sigma_j >= keys::ZERO))
            &&& name == "GARCH"@ ==> (valid <==> (config.garch_params matches Some(p) && p.omega
                > keys::ZERO && p.alpha >= keys::ZERO && p.beta >= keys::ZERO
                && garch_persistence_below_one))
            &&& name == "Bootstrap"@ ==> valid
        }),
{
    lemma_named(config.model_type->0@);
}

/// Converting a single-ticker configuration to model parameters copies the
/// named model's parameters field for field (drift to drift, mean jump to mean
/// jump, and so on), or reports that they are absent.
pub proof fn lemma_model_params_field_for_field(config: SimConfig)
    requires
        config.model_type is Some,
    ensures
        ({
            let name = config.model_type->0@;
            let r = configured_model_params(config);
            &&& name == "GBM"@ ==> r == match config.gbm_params {
                Some(p) => Ok(ModelParams::GBM { mu: p.mu, sigma: p.sigma }),
                None => Err(ConfigError::ParamsNotFound(ModelKind::GBM)),
            }
            &&& name == "JumpDiffusion"@ ==> r == match config.jump_diffusion_params {
                Some(p) => Ok(
                    ModelParams::JumpDiffusion {
                        mu: p.mu,
                        sigma: p.sigma,
                        lambda: p.lambda,
                        mu_j: p.mu_j,
                        sigma_j: p.sigma_j,
                    },
                ),
                None => Err(ConfigError::ParamsNotFound(ModelKind::JumpDiffusion)),
            }
            &&& name == "GARCH"@ ==> r == match config.garch_params {
                Some(p) => Ok(ModelParams::GARCH { omega: p.omega, alpha: p.alpha, beta: p.beta }),
                None => Err(ConfigError::ParamsNotFound(ModelKind::GARCH)),
            }
            &&& name == "Bootstrap"@ ==> r == Ok::<ModelParams, ConfigError>(
                ModelParams::Bootstrap {  },
            )
        }),
{
    lemma_named(config.model_type->0@);
}

/// A single-ticker configuration keeps what it was built from: the initial
/// price, horizon, path count, seed, antithetic flag and model name, no
/// portfolio, a unit time step, and each model parameter in the field of the
/// same name of its model's parameter record, the other records absent.
pub proof fn lemma_single_ticker_stores_params(
    initial_price: i64,
    horizon: usize,
    num_paths: usize,
    seed: u64,
    use_antithetic: bool,
    model_type: String,
    model_params: ModelParams,
)
    ensures
        ({
            let c = single_ticker_config(
                initial_price,
                horizon,
                num_paths,
                seed,
                use_antithetic,
                model_type,
                model_params,
            );
            &&& c.initial_price == Some(initial_price)
            &&& c.horizon == horizon
            &&& c.num_paths == num_paths
            &&& c.seed == seed
            &&& c.use_antithetic == use_antithetic
            &&& c.model_type == Some(model_type)
            &&& c.portfolio is None
            &&& c.dt == keys::ONE
            &&& match model_params {
                ModelParams::GBM { mu, sigma } => c.gbm_params matches Some(p) && p.mu == mu
                    && p.sigma == sigma && c.jump_diffusion_params is None && c.garch_params is None,
                ModelParams::Bootstrap {  } => c.gbm_params is None && c.jump_diffusion_params is None
                    && c.garch_params is None,
                ModelParams::JumpDiffusion { mu, sigma, lambda, mu_j, sigma_j } => c.jump_diffusion_params matches Some(p)
                    && p.mu == mu && p.sigma == sigma && p.lambda == lambda && p.mu_j == mu_j
                    && p.sigma_j == sigma_j && c.gbm_params is None && c.garch_params is None,
                ModelParams::GARCH { omega, alpha, beta } => c.garch_params matches Some(p)
                    && p.omega == omega && p.alpha == alpha && p.beta == beta && c.gbm_params is None
                    && c.jump_diffusion_params is None,
            }
        }),
{
}

} // verus!
