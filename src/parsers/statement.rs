//! The statement dispatcher. Only expression statements are implemented; the
//! other forms keep their place in the order of alternatives and fail as
//! unimplemented.
use vstd::prelude::*;
use crate::input::{ErrorKind, Input, ParseError};
use crate::lexers::expression::{expression, expression_spec};
use crate::lexers::string::tended;
use crate::parsers::binary::unread;
use crate::token::{Token, TokenModel, token_outcome};

verus! {

/// A statement at `p`: presently an expression statement.
pub open spec fn statement_spec(s: Seq<char>, p: int) -> Option<(nat, TokenModel)>
    decreases unread(s, p), 10int,
{
    if !(0 <= p <= s.len()) {
        None
    } else {
        expression_spec(s, p)
    }
}

/// The failure of a statement form that is not implemented.
fn stub(i: Input) -> (r: Result<(Input, Token), ParseError>)
    ensures
        r matches Err(e) && e.kind == ErrorKind::Unimplemented && e.pos == i.pos,
{
    Err(ParseError { kind: ErrorKind::Unimplemented, pos: i.pos })
}

/// *expression_statement* | *alias_statement* | *undef_statement* |
/// *if_modifier_statement* | *unless_modifier_statement* |
/// *while_modifier_statement* | *until_modifier_statement* |
/// *rescue_modifier_statement* | *assignment_statement*, in that order.
/// Where no expression statement parses, the error is that of the last,
/// unimplemented, form.
pub fn statement(i: Input) -> (r: Result<(Input, Token), ParseError>)
    requires
        i.wf(),
    ensures
        token_outcome(i, r, tended(i.pos as int, statement_spec(i.src@, i.pos as int))),
        r matches Err(e) ==> e.kind == ErrorKind::Unimplemented,
    decreases unread(i.src@, i.pos as int), 11int,
{
    if let Ok(x) = expression_statement(i) {
        return Ok(x);
    }
    if let Ok(x) = alias_statement(i) {
        return Ok(x);
    }
    if let Ok(x) = undef_statement(i) {
        return Ok(x);
    }
    if let Ok(x) = if_modifier_statement(i) {
        return Ok(x);
    }
    if let Ok(x) = unless_modifier_statement(i) {
        return Ok(x);
    }
    if let Ok(x) = while_modifier_statement(i) {
        return Ok(x);
    }
    if let Ok(x) = until_modifier_statement(i) {
        return Ok(x);
    }
    if let Ok(x) = rescue_modifier_statement(i) {
        return Ok(x);
    }
    assignment_statement(i)
}

/// An expression used as a statement.
pub fn expression_statement(i: Input) -> (r: Result<(Input, Token), ParseError>)
    requires
        i.wf(),
    ensures
        token_outcome(i, r, tended(i.pos as int, expression_spec(i.src@, i.pos as int))),
    decreases unread(i.src@, i.pos as int), 10int,
{
    expression(i)
}

/// `alias`: not implemented.
pub fn alias_statement(i: Input) -> (r: Result<(Input, Token), ParseError>)
    ensures
        r matches Err(e) && e.kind == ErrorKind::Unimplemented && e.pos == i.pos,
{
    stub(i)
}

/// `undef`: not implemented.
pub fn undef_statement(i: Input) -> (r: Result<(Input, Token), ParseError>)
    ensures
        r matches Err(e) && e.kind == ErrorKind::Unimplemented && e.pos == i.pos,
{
    stub(i)
}

/// A statement with an `if` modifier: not implemented.
pub fn if_modifier_statement(i: Input) -> (r: Result<(Input, Token), ParseError>)
    ensures
        r matches Err(e) && e.kind == ErrorKind::Unimplemented && e.pos == i.pos,
{
    stub(i)
}

/// A statement with an `unless` modifier: not implemented.
pub fn unless_modifier_statement(i: Input) -> (r: Result<(Input, Token), ParseError>)
    ensures
        r matches Err(e) && e.kind == ErrorKind::Unimplemented && e.pos == i.pos,
{
    stub(i)
}

/// A statement with a `while` modifier: not implemented.
pub fn while_modifier_statement(i: Input) -> (r: Result<(Input, Token), ParseError>)
    ensures
        r matches Err(e) && e.kind == ErrorKind::Unimplemented && e.pos == i.pos,
{
    stub(i)
}

/// A statement with an `until` modifier: not implemented.
pub fn until_modifier_statement(i: Input) -> (r: Result<(Input, Token), ParseError>)
    ensures
        r matches Err(e) && e.kind == ErrorKind::Unimplemented && e.pos == i.pos,
{
    stub(i)
}

/// A statement with a `rescue` modifier: not implemented.
pub fn rescue_modifier_statement(i: Input) -> (r: Result<(Input, Token), ParseError>)
    ensures
        r matches Err(e) && e.kind == ErrorKind::Unimplemented && e.pos == i.pos,
{
    stub(i)
}

/// An assignment statement: not implemented.
pub fn assignment_statement(i: Input) -> (r: Result<(Input, Token), ParseError>)
    ensures
        r matches Err(e) && e.kind == ErrorKind::Unimplemented && e.pos == i.pos,
{
    stub(i)
}

} // verus!
