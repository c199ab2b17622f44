//! Scalar-expression evaluation core of a query engine.
//!
//! An expression tree is prepared in two passes — constant folding with
//! variable resolution first, then specialization of built-in operators into
//! dedicated node shapes — and the prepared tree is evaluated once per row
//! under explicit three-valued (null-aware) semantics.

pub mod error;
pub mod eval;
pub mod expr;
pub mod laws;
pub mod op;
pub mod value;
