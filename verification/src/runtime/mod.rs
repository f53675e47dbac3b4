//! Random choices made by a composition, drawn from a seeded scope.
pub mod rng;
