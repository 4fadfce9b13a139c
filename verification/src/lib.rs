//! Arithmetic in a prime finite field with the modulus fixed at compile time.
//!
//! The element type [`gf::GF`] carries its modulus as a const generic
//! parameter, stores the canonical residue, and offers the usual field
//! operations together with exponentiation and the multiplicative inverse.
//! The algebraic laws that hold of these operations for every modulus the
//! operations admit are stated and proved in [`laws`].

pub mod decimal;
pub mod gf;
pub mod laws;
