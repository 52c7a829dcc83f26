//! Theorems about the encodings: what the terms that the translator
//! builds mean.

pub mod cells;
pub mod instructions;
pub mod values;
pub mod vectors;
