//! A synthesizer for 32-bit "bit-hack" expressions.
//!
//! Given first-order constraints that relate input variables to a result
//! variable `res` over fixed-width two's-complement integers, the library
//! searches for a concrete expression over a small algebraic/bitwise
//! language whose substitution for `res` satisfies every constraint.
//! The search couples a candidate generator with an SMT-backed
//! verification oracle in a counter-example guided loop.

pub mod conv;
pub mod expr;
pub mod oracle;
pub mod search;
pub mod smt;
pub mod synth;
