//! The newer error and generator types of the engine.

pub mod errors;
pub mod rng;
