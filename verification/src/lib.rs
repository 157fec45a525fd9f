//! Expressions of a language for zero-knowledge circuits, from the parse tree
//! to the requests that a constraint system is asked to serve.
//!
//! - [`ast`]: the parse tree of an expression, as plain data.
//! - [`expression`]: the typed expression tree.
//! - [`lowering`]: from the parse tree to the expression tree.
//! - [`display`]: the text of an expression tree.
//! - [`grouping`]: why the text tells how the operands are grouped.
//! - [`round_trip`]: how lowering and the text fit together.
//! - [`constraints`]: the unsigned-integer gadgets, for every width.
//! - [`decimal`], [`integer`], [`span`]: numbers, integer literals, source positions.
//! - [`verification_key`]: where a package's verification key file lies.

pub mod ast;
pub mod constraints;
pub mod decimal;
pub mod display;
pub mod expression;
pub mod grouping;
pub mod integer;
pub mod lowering;
pub mod round_trip;
pub mod span;
pub mod verification_key;
