//! Identifiers, told apart by their leading characters.
use vstd::prelude::*;
use crate::ast::IdentifierKind;
use crate::input::{Input, ParseError, fail, fail_kind};

verus! {

pub open spec fn is_lower(c: char) -> bool {
    'a' <= c <= 'z'
}

pub open spec fn is_upper(c: char) -> bool {
    'A' <= c <= 'Z'
}

pub open spec fn is_digit(c: char) -> bool {
    '0' <= c <= '9'
}

/// A character that may start an identifier.
pub open spec fn is_ident_start(c: char) -> bool {
    is_lower(c) || is_upper(c) || c == '_'
}

/// A character that may continue an identifier.
pub open spec fn is_ident_char(c: char) -> bool {
    is_ident_start(c) || is_digit(c)
}

/// The end of the run of identifier characters that starts at `p`.
pub open spec fn ident_run(s: Seq<char>, p: int) -> int
    decreases s.len() - p,
{
    if 0 <= p < s.len() && is_ident_char(s[p]) {
        ident_run(s, p + 1)
    } else {
        p
    }
}

/// Whether the character at `p` continues an identifier.
pub open spec fn ident_char_at(s: Seq<char>, p: int) -> bool {
    0 <= p < s.len() && is_ident_char(s[p])
}

pub fn is_ident_char_exec(c: char) -> (r: bool)
    ensures
        r == is_ident_char(c),
{
    ('a' <= c && c <= 'z') || ('A' <= c && c <= 'Z') || c == '_' || ('0' <= c && c <= '9')
}

/// The end of the run of identifier characters at `from`.
pub fn ident_end(s: &[char], from: usize) -> (r: usize)
    requires
        from <= s@.len(),
    ensures
        r == ident_run(s@, from as int),
        from <= r <= s@.len(),
{
    let mut k: usize = from;
    while k < s.len() && is_ident_char_exec(s[k])
        invariant
            from <= k <= s@.len(),
            ident_run(s@, k as int) == ident_run(s@, from as int),
        decreases s@.len() - k,
    {
        k = k + 1;
    }
    k
}

/// The kind and the end of the identifier at `p`, if one starts there:
/// a constant starts with an upper-case letter, a global variable with `$`,
/// a class variable with `@@`, an instance variable with `@`, a local
/// variable with a lower-case letter or `_`.
pub open spec fn identifier_spec(s: Seq<char>, p: int) -> Option<(int, IdentifierKind)> {
    if !(0 <= p < s.len()) {
        None
    } else if is_upper(s[p]) {
        Some((ident_run(s, p + 1), IdentifierKind::Constant))
    } else if s[p] == '$' && p + 1 < s.len() && is_ident_start(s[p + 1]) {
        Some((ident_run(s, p + 1), IdentifierKind::GlobalVariable))
    } else if s[p] == '@' && p + 2 < s.len() && s[p + 1] == '@' && is_ident_start(s[p + 2]) {
        Some((ident_run(s, p + 2), IdentifierKind::ClassVariable))
    } else if s[p] == '@' && p + 1 < s.len() && is_ident_start(s[p + 1]) {
        Some((ident_run(s, p + 1), IdentifierKind::InstanceVariable))
    } else if is_lower(s[p]) || s[p] == '_' {
        Some((ident_run(s, p + 1), IdentifierKind::LocalVariable))
    } else {
        None
    }
}

/// Recognises the identifier at the cursor and gives its kind; the name is
/// the span from the cursor to the returned input.
pub fn identifier(i: Input) -> (r: Result<(Input, IdentifierKind), ParseError>)
    requires
        i.wf(),
    ensures
        match r {
            Ok((j, k)) => j.wf() && j.src@ == i.src@ && i.pos < j.pos
                && identifier_spec(i.src@, i.pos as int) == Some((j.pos as int, k)),
            Err(e) => identifier_spec(i.src@, i.pos as int) is None
                && e.pos == i.pos && e.kind == fail_kind(i.src@, i.pos as int),
        },
{
    let s = i.src;
    let _n = s.len();
    let p = i.pos;
    let c0 = match i.peek(0) {
        Some(c) => c,
        None => return Err(fail(i)),
    };
    let c1 = i.peek(1);
    let c2 = i.peek(2);
    let start1 = match c1 { Some(c) => ('a' <= c && c <= 'z') || ('A' <= c && c <= 'Z') || c == '_', None => false };
    let start2 = match c2 { Some(c) => ('a' <= c && c <= 'z') || ('A' <= c && c <= 'Z') || c == '_', None => false };
    if 'A' <= c0 && c0 <= 'Z' {
        Ok((i.advance(ident_end(s, p + 1) - p), IdentifierKind::Constant))
    } else if c0 == '$' && start1 {
        Ok((i.advance(ident_end(s, p + 1) - p), IdentifierKind::GlobalVariable))
    } else if c0 == '@' && c1 == Some('@') && start2 {
        Ok((i.advance(ident_end(s, p + 2) - p), IdentifierKind::ClassVariable))
    } else if c0 == '@' && start1 {
        Ok((i.advance(ident_end(s, p + 1) - p), IdentifierKind::InstanceVariable))
    } else if ('a' <= c0 && c0 <= 'z') || c0 == '_' {
        Ok((i.advance(ident_end(s, p + 1) - p), IdentifierKind::LocalVariable))
    } else {
        Err(fail(i))
    }
}

} // verus!
