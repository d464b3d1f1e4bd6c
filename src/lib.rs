
pub mod field;
pub mod merkle;
pub mod prover;
