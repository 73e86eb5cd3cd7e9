//! Arithmetic over the finite field GF(2^8), driven by logarithm and
//! anti-logarithm tables built from a primitive polynomial.
pub mod field;
pub mod laws;
pub mod primitive;
pub mod tables;
