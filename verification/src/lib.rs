//! Column extraction, spectrum layout and artifact text for a spectral
//! analysis of a sampled series kept in a text column.

pub mod artifact;
pub mod failure;
pub mod loader;
pub mod spectrum;
pub mod token;
pub mod usage;
