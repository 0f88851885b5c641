//! Cadence detection for agent outputs: the verified core.
//!
//! A cadence names how an agent's stream of outputs ends: with a strong
//! resolution, a gentle one, a surprising pivot, or a suspension. This crate
//! holds the kinds of cadence, the per-agent profile of observed cadences,
//! and the integer and text tests that the detector applies to a window of
//! outputs.

pub mod cadence;
pub mod tally;
pub mod cadence_map;
pub mod signals;

pub use cadence::CadenceType;
pub use cadence_map::CadenceMap;
pub use tally::CadenceTally;
