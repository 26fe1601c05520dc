//! A small just-in-time compiler for a subset of a lazy configuration
//! expression language: integer and float literals, identifiers, binary
//! operators, `let ... in` bindings, single-argument lambdas, and string
//! literals with interpolation parts.
//!
//! The translator walks an expression tree and emits instructions of a small
//! intermediate representation; a binding environment maps identifiers to
//! storage slots shared across the whole compilation. The translation is
//! verified against a mathematical evaluator: the value the emitted code
//! computes equals the value the evaluator gives the expression.

pub mod ast;
pub mod env;
pub mod ir;
pub mod compiler;
pub mod interp;
pub mod laws;
pub mod sem;
pub mod translate;
