pub mod decompositions;
pub mod dvec;
pub mod dmat;
