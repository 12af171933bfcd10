//! An arithmetic expression front end: a lexer, an operator-precedence
//! parser over a table of operators that the caller supplies, and an
//! evaluator over a numeric tower of integers, floats, exact fractions,
//! signed infinities and an undefined value.
//!
//! The library holds no floating-point arithmetic. A float is the bit
//! pattern of a double, and whoever calls the library performs the
//! operations that round (see `float`).

pub mod arith;
pub mod eval;
pub mod expr;
pub mod float;
pub mod grammar;
pub mod lexer;
pub mod order;
pub mod parser;
pub mod rat;
pub mod scan;
pub mod table;
pub mod text;
pub mod wide;
