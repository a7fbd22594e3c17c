//! Capabilities that scalar, vector and matrix types offer to the algorithms.
pub mod scalar;
pub mod model;
pub mod structure;
pub mod operations;
