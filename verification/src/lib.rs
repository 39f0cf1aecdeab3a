//! The type universe of a checker for a JavaScript-family language: a store of
//! uniquely identified types and the constructors that normalise before interning.

pub mod access;
pub mod algebra;
pub mod builtins;
pub mod constant;
pub mod evaluation;
pub mod functions;
pub mod ids;
pub mod laws;
pub mod number;
pub mod objects;
pub mod properties;
pub mod regexp;
pub mod store;
pub mod text;
pub mod types;
