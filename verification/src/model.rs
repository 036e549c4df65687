//! Price models and their parameters.
use vstd::prelude::*;
use crate::keys;

verus! {

/// The price models a path can be generated with.
#[derive(Debug, Clone, Copy, PartialEq, Eq, Structural)]
pub enum ModelKind {
    GBM,
    Bootstrap,
    JumpDiffusion,
    GARCH,
}

/// Model-specific parameters (as order keys).
#[derive(Debug, Clone, Copy, PartialEq, Eq, Structural)]
pub enum ModelParams {
    GBM { mu: i64, sigma: i64 },
    Bootstrap {},
    JumpDiffusion { mu: i64, sigma: i64, lambda: i64, mu_j: i64, sigma_j: i64 },
    GARCH { omega: i64, alpha: i64, beta: i64 },
}

/// The model a name denotes: "GBM", "Bootstrap", "JumpDiffusion" or "GARCH".
pub open spec fn kind_named(name: Seq<char>) -> Option<ModelKind> {
    if name == "GBM"@ {
        Some(ModelKind::GBM)
    } else if name == "Bootstrap"@ {
        Some(ModelKind::Bootstrap)
    } else if name == "JumpDiffusion"@ {
        Some(ModelKind::JumpDiffusion)
    } else if name == "GARCH"@ {
        Some(ModelKind::GARCH)
    } else {
        None
    }
}

/// The name of a model kind.
pub open spec fn kind_name(kind: ModelKind) -> Seq<char> {
    match kind {
        ModelKind::GBM => "GBM"@,
        ModelKind::Bootstrap => "Bootstrap"@,
        ModelKind::JumpDiffusion => "JumpDiffusion"@,
        ModelKind::GARCH => "GARCH"@,
    }
}

/// The kind of model a parameter set belongs to.
pub open spec fn params_kind(params: ModelParams) -> ModelKind {
    match params {
        ModelParams::GBM { .. } => ModelKind::GBM,
        ModelParams::Bootstrap {  } => ModelKind::Bootstrap,
        ModelParams::JumpDiffusion { .. } => ModelKind::JumpDiffusion,
        ModelParams::GARCH { .. } => ModelKind::GARCH,
    }
}

/// Each model's name denotes that model.
pub proof fn lemma_kind_name_denotes_kind(kind: ModelKind)
    ensures
        kind_named(kind_name(kind)) == Some(kind),
{
    reveal_strlit("GBM");
    reveal_strlit("Bootstrap");
    reveal_strlit("JumpDiffusion");
    reveal_strlit("GARCH");
    assert("GBM"@.len() == 3);
    assert("Bootstrap"@.len() == 9);
    assert("JumpDiffusion"@.len() == 13);
    assert("GARCH"@.len() == 5);
}

/// Whether the strings `a` and `b` hold the same characters.
fn same_text(a: &str, b: &str) -> (r: bool)
    ensures
        r == (a@ == b@),
{
    let a_owned = a.to_owned();
    let b_owned = b.to_owned();
    a_owned == b_owned
}

/// The model that `model_type` names, if it names one.
pub fn model_kind(model_type: &str) -> (kind: Option<ModelKind>)
    ensures
        kind == kind_named(model_type@),
{
    if same_text(model_type, "GBM") {
        Some(ModelKind::GBM)
    } else if same_text(model_type, "Bootstrap") {
        Some(ModelKind::Bootstrap)
    } else if same_text(model_type, "JumpDiffusion") {
        Some(ModelKind::JumpDiffusion)
    } else if same_text(model_type, "GARCH") {
        Some(ModelKind::GARCH)
    } else {
        None
    }
}

/// The model name that simulation statistics report for `model_type`: the
/// name itself for "GBM" and "Bootstrap", the empty name otherwise.
pub fn simulation_model_name(model_type: &str) -> (name: String)
    ensures
        name@ == match kind_named(model_type@) {
            Some(ModelKind::GBM) => "GBM"@,
            Some(ModelKind::Bootstrap) => "Bootstrap"@,
            _ => ""@,
        },
{
    match model_kind(model_type) {
        Some(ModelKind::GBM) => "GBM".to_owned(),
        Some(ModelKind::Bootstrap) => "Bootstrap".to_owned(),
        _ => "".to_owned(),
    }
}

/// The parameters that `create_model_params` builds.
pub open spec fn default_model_params(model_type: Seq<char>, mu: i64, sigma: i64) -> ModelParams {
    match kind_named(model_type) {
        Some(ModelKind::Bootstrap) => ModelParams::Bootstrap {  },
        Some(ModelKind::JumpDiffusion) => ModelParams::JumpDiffusion {
            mu,
            sigma,
            lambda: keys::DEFAULT_JUMP_INTENSITY,
            mu_j: keys::DEFAULT_JUMP_MEAN,
            sigma_j: keys::DEFAULT_JUMP_VOLATILITY,
        },
        Some(ModelKind::GARCH) => ModelParams::GARCH {
            omega: keys::DEFAULT_GARCH_OMEGA,
            alpha: keys::DEFAULT_GARCH_ALPHA,
            beta: keys::DEFAULT_GARCH_BETA,
        },
        _ => ModelParams::GBM { mu, sigma },
    }
}

/// Model parameters for `model_type` from a drift `mu` and volatility
/// `sigma`: jump-diffusion gets the default jump intensity, mean and
/// volatility; GARCH gets its default coefficients; an unknown name falls back
/// to GBM.
pub fn create_model_params(model_type: &str, mu: i64, sigma: i64) -> (params: ModelParams)
    ensures
        params == default_model_params(model_type@, mu, sigma),
{
    match model_kind(model_type) {
        Some(ModelKind::GBM) => ModelParams::GBM { mu, sigma },
        Some(ModelKind::Bootstrap) => ModelParams::Bootstrap {  },
        Some(ModelKind::JumpDiffusion) => ModelParams::JumpDiffusion {
            mu,
            sigma,
            lambda: keys::DEFAULT_JUMP_INTENSITY,
            mu_j: keys::DEFAULT_JUMP_MEAN,
            sigma_j: keys::DEFAULT_JUMP_VOLATILITY,
        },
        Some(ModelKind::GARCH) => ModelParams::GARCH {
            omega: keys::DEFAULT_GARCH_OMEGA,
            alpha: keys::DEFAULT_GARCH_ALPHA,
            beta: keys::DEFAULT_GARCH_BETA,
        },
        None => ModelParams::GBM { mu, sigma },
    }
}

} // verus!
