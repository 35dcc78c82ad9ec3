//! Operator names, as they appear in method names and assignments.
use vstd::prelude::*;
use crate::input::{Input, at, ParseError, fail_kind, fail};

verus! {

/// The length of the operator method name at `p`, or 0 when there is none.
/// Longer names are tried before their prefixes.
pub open spec fn operator_method_name_len(s: Seq<char>, p: int) -> int {
    if at(s, p, seq!['<', '=', '>']) { 3 }
    else if at(s, p, seq!['=', '=', '=']) { 3 }
    else if at(s, p, seq!['[', ']', '=']) { 3 }
    else if at(s, p, seq!['=', '=']) { 2 }
    else if at(s, p, seq!['=', '~']) { 2 }
    else if at(s, p, seq!['>', '=']) { 2 }
    else if at(s, p, seq!['>', '>']) { 2 }
    else if at(s, p, seq!['<', '=']) { 2 }
    else if at(s, p, seq!['<', '<']) { 2 }
    else if at(s, p, seq!['*', '*']) { 2 }
    else if at(s, p, seq!['+', '@']) { 2 }
    else if at(s, p, seq!['-', '@']) { 2 }
    else if at(s, p, seq!['[', ']']) { 2 }
    else if at(s, p, seq!['>']) { 1 }
    else if at(s, p, seq!['<']) { 1 }
    else if at(s, p, seq!['^']) { 1 }
    else if at(s, p, seq!['&']) { 1 }
    else if at(s, p, seq!['|']) { 1 }
    else if at(s, p, seq!['+']) { 1 }
    else if at(s, p, seq!['-']) { 1 }
    else if at(s, p, seq!['*']) { 1 }
    else if at(s, p, seq!['/']) { 1 }
    else if at(s, p, seq!['%']) { 1 }
    else if at(s, p, seq!['~']) { 1 }
    else { 0 }
}

/// The length of the assignment operator name at `p`, or 0 when there is none.
pub open spec fn assignment_operator_name_len(s: Seq<char>, p: int) -> int {
    if at(s, p, seq!['&', '&']) { 2 }
    else if at(s, p, seq!['|', '|']) { 2 }
    else if at(s, p, seq!['<', '<']) { 2 }
    else if at(s, p, seq!['>', '>']) { 2 }
    else if at(s, p, seq!['*', '*']) { 2 }
    else if at(s, p, seq!['^']) { 1 }
    else if at(s, p, seq!['&']) { 1 }
    else if at(s, p, seq!['|']) { 1 }
    else if at(s, p, seq!['+']) { 1 }
    else if at(s, p, seq!['-']) { 1 }
    else if at(s, p, seq!['%']) { 1 }
    else if at(s, p, seq!['/']) { 1 }
    else { 0 }
}

/// The length of the assignment operator (`+=`, `||=`, ...) at `p`, or 0.
pub open spec fn assignment_operator_len(s: Seq<char>, p: int) -> int {
    let n = assignment_operator_name_len(s, p);
    if n > 0 && at(s, p + n, seq!['=']) { n + 1 } else { 0 }
}

/// The length of the operator at `p`, or 0: an assignment operator, `||`,
/// `&&`, an operator method name, `=`, `!~`, `!=` or `!`, in that order, so
/// that `||` and `&&` are taken whole rather than as `|` and `&`.
pub open spec fn operator_len(s: Seq<char>, p: int) -> int {
    if assignment_operator_len(s, p) > 0 { assignment_operator_len(s, p) }
    else if at(s, p, seq!['|', '|']) { 2 }
    else if at(s, p, seq!['&', '&']) { 2 }
    else if operator_method_name_len(s, p) > 0 { operator_method_name_len(s, p) }
    else if at(s, p, seq!['=']) { 1 }
    else if at(s, p, seq!['!', '~']) { 2 }
    else if at(s, p, seq!['!', '=']) { 2 }
    else if at(s, p, seq!['!']) { 1 }
    else { 0 }
}

/// What a lexer that consumes `n` characters on success does: the input
/// moved on by `n` when `n > 0`, an error at the input's own position else.
pub open spec fn consumed(i: Input, r: Result<Input, ParseError>, n: int) -> bool {
    match r {
        Ok(j) => n > 0 && j.wf() && j.src@ == i.src@ && j.pos == i.pos + n,
        Err(e) => n == 0 && e.pos == i.pos && e.kind == fail_kind(i.src@, i.pos as int),
    }
}

/// Consumes the operator method name at the cursor.
pub fn operator_method_name(i: Input) -> (r: Result<Input, ParseError>)
    requires
        i.wf(),
    ensures
        consumed(i, r, operator_method_name_len(i.src@, i.pos as int)),
{
    let n: usize = if i.at3('<', '=', '>') { 3 }
        else if i.at3('=', '=', '=') { 3 }
        else if i.at3('[', ']', '=') { 3 }
        else if i.at2('=', '=') { 2 }
        else if i.at2('=', '~') { 2 }
        else if i.at2('>', '=') { 2 }
        else if i.at2('>', '>') { 2 }
        else if i.at2('<', '=') { 2 }
        else if i.at2('<', '<') { 2 }
        else if i.at2('*', '*') { 2 }
        else if i.at2('+', '@') { 2 }
        else if i.at2('-', '@') { 2 }
        else if i.at2('[', ']') { 2 }
        else if i.at1('>') { 1 }
        else if i.at1('<') { 1 }
        else if i.at1('^') { 1 }
        else if i.at1('&') { 1 }
        else if i.at1('|') { 1 }
        else if i.at1('+') { 1 }
        else if i.at1('-') { 1 }
        else if i.at1('*') { 1 }
        else if i.at1('/') { 1 }
        else if i.at1('%') { 1 }
        else if i.at1('~') { 1 }
        else { 0 };
    if n == 0 {
        Err(fail(i))
    } else {
        Ok(i.advance(n))
    }
}

/// Consumes the name of an assignment operator (`+`, `||`, `**`, ...).
pub fn assignment_operator_name(i: Input) -> (r: Result<Input, ParseError>)
    requires
        i.wf(),
    ensures
        consumed(i, r, assignment_operator_name_len(i.src@, i.pos as int)),
{
    let n: usize = if i.at2('&', '&') { 2 }
        else if i.at2('|', '|') { 2 }
        else if i.at2('<', '<') { 2 }
        else if i.at2('>', '>') { 2 }
        else if i.at2('*', '*') { 2 }
        else if i.at1('^') { 1 }
        else if i.at1('&') { 1 }
        else if i.at1('|') { 1 }
        else if i.at1('+') { 1 }
        else if i.at1('-') { 1 }
        else if i.at1('%') { 1 }
        else if i.at1('/') { 1 }
        else { 0 };
    if n == 0 {
        Err(fail(i))
    } else {
        Ok(i.advance(n))
    }
}

/// Consumes an assignment operator: its name followed by `=`.
pub fn assignment_operator(i: Input) -> (r: Result<Input, ParseError>)
    requires
        i.wf(),
    ensures
        consumed(i, r, assignment_operator_len(i.src@, i.pos as int)),
{
    match assignment_operator_name(i) {
        Ok(j) => if j.at1('=') {
            Ok(j.advance(1))
        } else {
            Err(fail(i))
        },
        Err(e) => Err(e),
    }
}

/// Consumes an operator: an assignment operator, `||`, `&&`, an operator
/// method name, or one of `=`, `!~`, `!=`, `!`.
pub fn operator(i: Input) -> (r: Result<Input, ParseError>)
    requires
        i.wf(),
    ensures
        consumed(i, r, operator_len(i.src@, i.pos as int)),
{
    if let Ok(j) = assignment_operator(i) {
        return Ok(j);
    }
    if i.at2('|', '|') || i.at2('&', '&') {
        return Ok(i.advance(2));
    }
    if let Ok(j) = operator_method_name(i) {
        return Ok(j);
    }
    let n: usize = if i.at1('=') { 1 }
        else if i.at2('!', '~') { 2 }
        else if i.at2('!', '=') { 2 }
        else if i.at1('!') { 1 }
        else { 0 };
    if n == 0 {
        Err(fail(i))
    } else {
        Ok(i.advance(n))
    }
}

} // verus!
