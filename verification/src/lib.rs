//! Skerry: one error enum per function. A function lists its errors
//! (`e![ErrA, *OtherFnError]`, `*` pulling in every error of another
//! function's enum); the attribute macros or the build-time generator turn
//! each list into an enum named after the function, without repeated
//! variants, with conversions to and from the global error enum.
//!
//! This crate holds what they decide: the naming rules, the grammars of
//! their inputs, the resolution of composite errors, the generated text, and
//! what generated code uses at compile time.

pub mod text;
pub mod naming;
pub mod definitions;
pub mod order;
pub mod tables;
pub mod resolve;
pub mod writer;
pub mod generate;
pub mod tokens;
pub mod runtime;
pub mod paths;
pub mod lists;
pub mod macros;
pub mod hashing;
pub mod signature;
pub mod items;
pub mod berrors;
pub mod fn_attrs;
pub mod marking;
pub mod scanner;
pub mod laws;
