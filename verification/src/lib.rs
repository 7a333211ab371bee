//! A particle-life engine: typed point particles and the table of rules by
//! which each type attracts or repels each other.
pub mod generator;
pub mod particle;
pub mod rng;
pub mod scalar;
pub mod step;
pub mod universe;
