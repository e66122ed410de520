//! Construction layer of a small symbolic-algebra engine: expression trees of
//! symbols, numeric literals and operator nodes, built by arithmetic rules that
//! fold literals, flatten sums and products, and rewrite subtraction and
//! division in terms of addition, multiplication and powers.
//!
//! Folds that integer arithmetic cannot carry out (any float or complex
//! operand, and every power but that of integer zero to a negative integer,
//! which fails as a division by zero) come back as a [`Pending`] construction: the
//! caller computes the binary64 result and hands it to [`Pending::complete`].
pub mod expression;
pub mod numerical;
pub mod operator;

pub use expression::{Built, Expression, Pending, Symbol};
pub use numerical::{Binary64, Complex, Fold, Kind, NumOp, NumericError, Numerical};
pub use operator::Operator;
