//! Generic dense linear algebra: capability traits for scalars, vectors and
//! matrices, a concrete dense matrix type, and Householder QR and QR-iteration
//! eigen decompositions written against the capabilities alone.
pub mod traits;
pub mod linalg;
