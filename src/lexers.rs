//! The lexical layer: identifiers, comments, literals, strings and symbols.
pub mod identifier;
pub mod numeric;
pub mod comment;
pub mod expression;
pub mod string;
pub mod symbol;
