//! Variable references: pseudo-variables and identifiers.
use vstd::prelude::*;
use crate::ast::{Identifier, IdentifierKind, LiteralModel, Node, NodeModel, node_outcome};
use crate::input::{Input, ParseError, at, fail, fail_kind, string_between};
use crate::lexers::numeric::{blank_count, blank_len};
use crate::lexers::identifier::{ident_char_at, identifier, identifier_spec, is_ident_char_exec, is_upper};

verus! {

/// Whether the word `w` stands at `p`, not followed by an identifier character.
pub open spec fn word_at(s: Seq<char>, p: int, w: Seq<char>) -> bool {
    at(s, p, w) && !ident_char_at(s, p + w.len())
}

/// The pseudo-variable at `p`: `nil`, `true`, `false` or `self`.
pub open spec fn pseudo_variable_spec(s: Seq<char>, p: int) -> Option<(int, NodeModel)> {
    if word_at(s, p, seq!['n', 'i', 'l']) {
        Some((p + 3, NodeModel::Nil))
    } else if word_at(s, p, seq!['t', 'r', 'u', 'e']) {
        Some((p + 4, NodeModel::Literal(LiteralModel::Boolean(true))))
    } else if word_at(s, p, seq!['f', 'a', 'l', 's', 'e']) {
        Some((p + 5, NodeModel::Literal(LiteralModel::Boolean(false))))
    } else if word_at(s, p, seq!['s', 'e', 'l', 'f']) {
        Some((p + 4, NodeModel::Self_))
    } else {
        None
    }
}

/// The identifier at `p` as a node.
pub open spec fn variable_spec(s: Seq<char>, p: int) -> Option<(int, NodeModel)> {
    match identifier_spec(s, p) {
        Some((e, k)) => Some((e, NodeModel::Identifier(s.subrange(p, e), k))),
        None => None,
    }
}

/// A pseudo-variable, else an identifier.
pub open spec fn variable_reference_spec(s: Seq<char>, p: int) -> Option<(int, NodeModel)> {
    match pseudo_variable_spec(s, p) {
        Some(x) => Some(x),
        None => variable_spec(s, p),
    }
}

/// Whether an identifier character follows `n` characters after the cursor.
fn ident_char_follows(i: Input, n: usize) -> (r: bool)
    requires
        i.wf(),
    ensures
        r == ident_char_at(i.src@, i.pos + n),
{
    match i.peek(n) {
        Some(c) => is_ident_char_exec(c),
        None => false,
    }
}

/// `nil`
pub fn nil_expression(i: Input) -> (r: Result<(Input, Node), ParseError>)
    requires
        i.wf(),
    ensures
        node_outcome(i, r, if word_at(i.src@, i.pos as int, seq!['n', 'i', 'l']) {
            Some((i.pos + 3, NodeModel::Nil))
        } else {
            None
        }),
{
    if i.at3('n', 'i', 'l') && !ident_char_follows(i, 3) {
        Ok((i.advance(3), Node::Nil))
    } else {
        Err(fail(i))
    }
}

/// `true`
pub fn true_expression(i: Input) -> (r: Result<(Input, Node), ParseError>)
    requires
        i.wf(),
    ensures
        node_outcome(i, r, if word_at(i.src@, i.pos as int, seq!['t', 'r', 'u', 'e']) {
            Some((i.pos + 4, NodeModel::Literal(LiteralModel::Boolean(true))))
        } else {
            None
        }),
{
    if i.at4('t', 'r', 'u', 'e') && !ident_char_follows(i, 4) {
        Ok((i.advance(4), Node::boolean(true)))
    } else {
        Err(fail(i))
    }
}

/// `false`
pub fn false_expression(i: Input) -> (r: Result<(Input, Node), ParseError>)
    requires
        i.wf(),
    ensures
        node_outcome(i, r, if word_at(i.src@, i.pos as int, seq!['f', 'a', 'l', 's', 'e']) {
            Some((i.pos + 5, NodeModel::Literal(LiteralModel::Boolean(false))))
        } else {
            None
        }),
{
    if i.at5('f', 'a', 'l', 's', 'e') && !ident_char_follows(i, 5) {
        Ok((i.advance(5), Node::boolean(false)))
    } else {
        Err(fail(i))
    }
}

/// `self`
pub fn self_expression(i: Input) -> (r: Result<(Input, Node), ParseError>)
    requires
        i.wf(),
    ensures
        node_outcome(i, r, if word_at(i.src@, i.pos as int, seq!['s', 'e', 'l', 'f']) {
            Some((i.pos + 4, NodeModel::Self_))
        } else {
            None
        }),
{
    if i.at4('s', 'e', 'l', 'f') && !ident_char_follows(i, 4) {
        Ok((i.advance(4), Node::Self_))
    } else {
        Err(fail(i))
    }
}

/// *nil_expression* | *true_expression* | *false_expression* | *self_expression*
pub fn pseudo_variable(i: Input) -> (r: Result<(Input, Node), ParseError>)
    requires
        i.wf(),
    ensures
        node_outcome(i, r, pseudo_variable_spec(i.src@, i.pos as int)),
{
    if let Ok(x) = nil_expression(i) {
        return Ok(x);
    }
    if let Ok(x) = true_expression(i) {
        return Ok(x);
    }
    if let Ok(x) = false_expression(i) {
        return Ok(x);
    }
    self_expression(i)
}

/// A constant, global, class, instance or local variable identifier.
pub fn variable(i: Input) -> (r: Result<(Input, Identifier), ParseError>)
    requires
        i.wf(),
    ensures
        match r {
            Ok((j, id)) => j.wf() && j.src@ == i.src@ && i.pos < j.pos
                && identifier_spec(i.src@, i.pos as int) == Some((j.pos as int, id.kind))
                && id.name@ == i.src@.subrange(i.pos as int, j.pos as int),
            Err(e) => identifier_spec(i.src@, i.pos as int) is None
                && e.pos == i.pos && e.kind == fail_kind(i.src@, i.pos as int),
        },
{
    match identifier(i) {
        Ok((j, kind)) => {
            let name = string_between(i.src, i.pos, j.pos);
            Ok((j, Identifier { name, kind }))
        },
        Err(e) => Err(e),
    }
}

/// *pseudo_variable* | *variable*
pub fn variable_reference(i: Input) -> (r: Result<(Input, Node), ParseError>)
    requires
        i.wf(),
    ensures
        node_outcome(i, r, variable_reference_spec(i.src@, i.pos as int)),
{
    if let Ok(x) = pseudo_variable(i) {
        return Ok(x);
    }
    match variable(i) {
        Ok((j, id)) => Ok((j, Node::Identifier(id))),
        Err(e) => Err(e),
    }
}

/// `::` and a constant at `p` give a placeholder.
pub open spec fn scoped_constant_spec(s: Seq<char>, p: int) -> Option<(int, NodeModel)> {
    if !at(s, p, seq![':', ':']) {
        None
    } else {
        match identifier_spec(s, p + 2) {
            Some((e, IdentifierKind::Constant)) => Some((e, NodeModel::Placeholder)),
            _ => None,
        }
    }
}

/// `::` followed by a constant: a scoped constant reference, left as an open
/// placeholder for the scope that precedes it.
pub fn simple_scoped_constant_reference(i: Input) -> (r: Result<(Input, Node), ParseError>)
    requires
        i.wf(),
    ensures
        node_outcome(i, r, scoped_constant_spec(i.src@, i.pos as int)),
{
    if !i.at2(':', ':') {
        return Err(fail(i));
    }
    match identifier(i.advance(2)) {
        Ok((j, IdentifierKind::Constant)) => Ok((j, Node::Placeholder)),
        _ => Err(fail(i)),
    }
}

/// `::`, blanks and a constant at `p` give a placeholder.
pub open spec fn spaced_scoped_constant_spec(s: Seq<char>, p: int) -> Option<(int, NodeModel)> {
    if !at(s, p, seq![':', ':']) {
        None
    } else {
        match identifier_spec(s, p + 2 + blank_len(s, p + 2)) {
            Some((e, IdentifierKind::Constant)) => Some((e, NodeModel::Placeholder)),
            _ => None,
        }
    }
}

/// `::`, optional blanks, then a constant: a scoped constant reference whose
/// scope is left as an open placeholder. What may follow it is for the
/// caller to parse.
pub fn _scoped_constant_reference(i: Input) -> (r: Result<(Input, Node), ParseError>)
    requires
        i.wf(),
    ensures
        node_outcome(i, r, spaced_scoped_constant_spec(i.src@, i.pos as int)),
{
    if !i.at2(':', ':') {
        return Err(fail(i));
    }
    let b = blank_count(i.src, i.pos + 2);
    match identifier(i.advance(2 + b)) {
        Ok((j, IdentifierKind::Constant)) => Ok((j, Node::Placeholder)),
        _ => Err(fail(i)),
    }
}

} // verus!
