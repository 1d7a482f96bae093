//! A self-contained behavioral decision engine for autonomous agents.
//!
//! Given a discretized perception state, the engine selects one action per
//! action category and updates its internal structure from a scalar reward
//! signal, an expert observation, or an externally supplied knowledge rule.
//! All continuous quantities are Q16.16 saturating fixed-point numbers
//! (`i64`, 65536 units per 1.0), which makes every operation total and the
//! whole engine deterministic and bit-reproducible.

pub mod fx;
pub mod mwso;
pub mod horizon;
pub mod knowledge;
pub mod node;
pub mod rng;
pub mod singularity;
pub mod snapshot;
