//! Verified core of a Monte Carlo pricing engine for equity derivatives with
//! cash dividends: the decisions, the layouts and the arithmetic of pricing and
//! risk, over any number type.

pub mod aad_laws;
pub mod affine;
pub mod affine_laws;
pub mod backend;
pub mod bergomi;
pub mod bergomi_reverse;
pub mod bump_laws;
pub mod bumps;
pub mod cholesky;
pub mod compile_world;
pub mod correlation_reverse;
pub mod dividend_aad;
pub mod dividend_compile;
pub mod dividend_compiler;
pub mod dividend_gamma;
pub mod dividend_lsv_compile;
pub mod dividend_price;
pub mod dynamics;
pub mod early_exercise;
pub mod engine;
pub mod errors;
pub mod estimation;
pub mod extension;
pub mod factor_laws;
pub mod fingerprint;
pub mod hw_aad;
pub mod hw_cash;
pub mod hw_cash_risk;
pub mod hw_correlation_risk;
pub mod hw_laws;
pub mod hw_path;
pub mod hw_plan;
pub mod hw_rate_risk;
pub mod hw_reverse;
pub mod hw_sweep_laws;
pub mod hybrid_aad;
pub mod hybrid_context;
pub mod hybrid_risk;
pub mod hybrid_world;
pub mod identity;
pub mod labels;
pub mod linear;
pub mod local_vol;
pub mod local_vol_laws;
pub mod local_vol_paths;
pub mod local_vol_valuation;
pub mod lsv_compiler;
pub mod lsv_laws;
pub mod lsv_model;
pub mod lsv_plan;
pub mod lsv_pricing;
pub mod lsv_risk;
pub mod market;
pub mod models;
pub mod neumaier;
pub mod paid_market;
pub mod pathwise;
pub mod plan;
pub mod plan_world;
pub mod pricing;
pub mod quadrature;
pub mod rate_market;
pub mod rates;
pub mod report;
pub mod report_laws;
pub mod residual_risk;
pub mod residual_target;
pub mod residual_world;
pub mod results;
pub mod reverse;
pub mod risk_laws;
pub mod rough;
pub mod rough_laws;
pub mod rough_reverse;
pub mod sampling;
pub mod scalar;
pub mod simulation;
pub mod simulation_laws;
pub mod spot_paths;
pub mod spot_payoff;
pub mod stochastic_volatility;
pub mod supplied_world;
pub mod sweep_laws;
pub mod tangent_laws;
pub mod target_grid;
pub mod target_risk;
pub mod units;
pub mod valuation;
pub mod vega_kt;
pub mod volatility_laws;
pub mod world;
