//! Stochastic simulation of atmospheric column water vapor (CWV).
//!
//! The column alternates between a precipitating regime, in which vapor
//! depletes, and a non-precipitating regime, in which vapor accumulates.
//! A discretized stochastic differential equation advances the continuous
//! value one step at a time; a pluggable transition policy decides when the
//! regime switches; the chronological record of regime runs ("events") is the
//! simulation's primary output.
//!
//! All continuous quantities are held in fixed-point form: an `i64` counts
//! millionths of the physical unit, so the arithmetic of the integrator can
//! be verified exactly.

pub mod fixed;
pub mod hist;
pub mod markov;
pub mod policy;
pub mod response;
pub mod rng;
pub mod state;

pub use fixed::FP_LIMIT;
pub use fixed::PARAM_MAX;
pub use fixed::SCALE;
pub use fixed::STEP_MAX;
pub use hist::Histogram;
pub use hist::Range;
pub use hist::axes_of;
pub use markov::ConfigError;
pub use markov::EngineModel;
pub use markov::MarkovChain;
pub use markov::PLAUSIBLE_MAX;
pub use markov::PLAUSIBLE_MIN;
pub use policy::TransitionPolicy;
pub use response::ResponseFunctionSet;
pub use response::ResponseParams;
pub use response::scaled_response;
pub use rng::RandomSource;
pub use state::State;
pub use state::StateHistory;
