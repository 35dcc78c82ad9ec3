//! The syntactic layer: operators, variables and the precedence chain.
pub mod operator;
pub mod variable;
pub mod binary;
pub mod statement;
