//! A PCG32 pseudorandom number generator: 64-bit state, 32-bit outputs,
//! bit for bit the published reference algorithm.
pub mod generator;
pub mod model;

pub use generator::Pcg32;
