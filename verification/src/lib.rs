//! Priority-fee transaction assembly.
//!
//! Builds the instruction sequence for a priced transaction: a compute-unit
//! limit directive first, an optional compute-unit price directive second,
//! and the caller's operations after them in their original order. The price
//! comes from an external estimation service; this crate frames the request
//! body, parses the response, and classifies every failure, leaving the
//! network round-trips to the caller.

pub mod types;
pub mod text;
pub mod keys;
pub mod plan;
pub mod number;
pub mod response;
pub mod request;
pub mod submit;
