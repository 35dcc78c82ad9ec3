//! A verified grammar engine for a Ruby-like language: a lexical layer for
//! comments, strings, symbols and literals, and an operator-precedence
//! expression parser that builds an abstract syntax tree.
use vstd::prelude::*;

pub mod ast;
pub mod input;
pub mod lexers;
pub mod parsers;
pub mod token;

pub use ast::Node;
pub use input::Input;
pub use lexers::expression::expression;
pub use lexers::string::string_literal;
pub use lexers::symbol::symbol;
pub use token::Token;

verus! {

} // verus!
