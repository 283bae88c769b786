use vstd::prelude::*;

pub mod lang;
pub mod fold;
pub mod lexer;
pub mod dice;
pub mod parser;
pub mod eval;
pub mod laws;

pub use fold::fold_expression;
