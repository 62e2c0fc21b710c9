/// Ranks of objective values given as binary64 bit patterns.
pub mod cost;
/// The Nelder-Mead iteration engine: a state machine that decides each move.
pub mod engine;
/// Why a run is abandoned.
pub mod error;
/// Stable ascending ordering of ranked costs.
pub mod ranking;
/// Construction of the initial simplex.
pub mod simplex;
