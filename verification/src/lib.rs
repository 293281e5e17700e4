//! A small dynamically typed scripting language: a scope-resolving compiler
//! that lowers a parsed syntax tree into a two-sorted intermediate
//! representation, and a tree-walking evaluator that executes it against a
//! chain of mutable scopes.
//!
//! The pipeline is: syntax tree -> scope resolver ([`compiler`]) -> IR
//! ([`instruction`]) -> evaluator ([`interpreter`]) -> runtime value
//! ([`value`]) or a positioned error ([`error`]).
//!
//! Floats travel as IEEE-754 bit patterns and their arithmetic runs behind
//! the trusted wrappers of [`floats`]. One operation is deliberately left
//! unsupported rather than approximated: raising a float to a float power,
//! which no pure bit-level dependency computes; it fails with a positioned
//! error (see [`ops::exponent_spec`]).

pub mod ast;
pub mod compiler;
pub mod error;
pub mod floats;
pub mod instruction;
pub mod interpreter;
pub mod laws;
pub mod ops;
pub mod owned;
pub mod span;
pub mod stdlib;
pub mod value;
