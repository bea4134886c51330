//! Goldilocks-field polynomials, a Fibonacci AIR and the Plonky3 commitment
//! plumbing around them, with their contracts proved by Verus.
pub mod air;
pub mod field_arith;
pub mod fri;
mod goldilocks_calls;
pub mod merkle;
pub mod poly;
pub mod poly_division;
pub mod poly_eval;
pub mod poly_laws;
pub mod plonky3_calls;
pub mod poly_spec;

pub use goldilocks_calls::two_adic_generator_value;
