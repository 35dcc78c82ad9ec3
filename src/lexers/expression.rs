//! Primary expressions of the lexical layer: groupings, variable
//! references and literals, and the compound statements inside groupings.
use vstd::prelude::*;
use crate::input::{Input, ParseError, at, fail, string_between};
use crate::lexers::identifier::{identifier, identifier_spec};
use crate::lexers::numeric::{blank_count, blank_len, numeric_literal, numeric_spec};
use crate::lexers::string::{string_literal, string_literal_spec, tended};
use crate::lexers::symbol::{symbol, symbol_spec};
use crate::ast::IdentifierKind;
use crate::parsers::binary::unread;
use crate::parsers::statement::{statement, statement_spec};
use crate::parsers::variable::{false_expression, nil_expression, true_expression, word_at};
use crate::token::{Token, TokenModel, lemma_tokens_view_index, lemma_tokens_view_push, token_outcome, token_view, tokens_view};

verus! {

/// A character that separates statements.
pub open spec fn is_separator(c: char) -> bool {
    c == ';' || c == '\n'
}

/// A character that may stand between statements.
pub open spec fn is_filler(c: char) -> bool {
    c == ';' || c == '\n' || c == ' ' || c == '\t' || c == '\r'
}

/// The number of separators and blanks from `p` on.
pub open spec fn fill_len(s: Seq<char>, p: int) -> nat
    decreases s.len() - p,
{
    if 0 <= p < s.len() && is_filler(s[p]) {
        1 + fill_len(s, p + 1)
    } else {
        0
    }
}

/// The statements from `q` on: each after the first follows a separator;
/// separators and blanks after a statement are taken with it.
pub open spec fn stmts_spec(s: Seq<char>, q: int) -> (nat, Seq<TokenModel>)
    decreases unread(s, q), 11int,
{
    if !(0 <= q <= s.len()) {
        (0, Seq::empty())
    } else {
        match statement_spec(s, q) {
            None => (0, Seq::empty()),
            Some((n, t)) => {
                let b = blank_len(s, q + n);
                if 0 <= q + n + b < s.len() && is_separator(s[q + n + b]) {
                    let f = fill_len(s, q + n + b);
                    let (m, ts) = stmts_spec(s, q + n + b + f);
                    (n + b + f + m, seq![t] + ts)
                } else {
                    (n, seq![t])
                }
            },
        }
    }
}

/// A compound statement at `p`: leading separators and blanks, then the
/// statements. Empty statements are dropped.
pub open spec fn compound_spec(s: Seq<char>, p: int) -> (nat, Seq<TokenModel>)
    decreases unread(s, p), 12int,
{
    if !(0 <= p <= s.len()) {
        (0, Seq::empty())
    } else {
        let f = fill_len(s, p);
        let (m, ts) = stmts_spec(s, p + f);
        (f + m, ts)
    }
}

/// `(` *compound_statement* `)`: the statements as one expression token.
pub open spec fn grouping_spec(s: Seq<char>, p: int) -> Option<(nat, TokenModel)>
    decreases unread(s, p), 8int,
{
    if !(0 <= p <= s.len()) || !at(s, p, seq!['(']) {
        None
    } else {
        let (n, ts) = compound_spec(s, p + 1);
        if at(s, p + 1 + n, seq![')']) {
            Some((n + 2, TokenModel::Expression(ts)))
        } else {
            None
        }
    }
}

/// A pseudo-variable (`nil`, `true`, `false`) or a local variable.
pub open spec fn token_variable_spec(s: Seq<char>, p: int) -> Option<(nat, TokenModel)> {
    if word_at(s, p, seq!['n', 'i', 'l']) {
        Some((3, TokenModel::Nil))
    } else if word_at(s, p, seq!['t', 'r', 'u', 'e']) {
        Some((4, TokenModel::Boolean(true)))
    } else if word_at(s, p, seq!['f', 'a', 'l', 's', 'e']) {
        Some((5, TokenModel::Boolean(false)))
    } else {
        match identifier_spec(s, p) {
            Some((e, IdentifierKind::LocalVariable)) => Some((
                (e - p) as nat,
                TokenModel::LocalVariableIdentifier(s.subrange(p, e)),
            )),
            _ => None,
        }
    }
}

/// A numeric literal, a string literal, or a symbol.
pub open spec fn literal_spec(s: Seq<char>, p: int) -> Option<(nat, TokenModel)>
    decreases unread(s, p), 7int,
{
    if !(0 <= p <= s.len()) {
        None
    } else {
        match numeric_spec(s, p) {
            Some((e, t)) => Some(((e - p) as nat, t)),
            None => match string_literal_spec(s, p) {
                Some(x) => Some(x),
                None => symbol_spec(s, p),
            },
        }
    }
}

/// A grouping, a variable reference, or a literal.
pub open spec fn expression_spec(s: Seq<char>, p: int) -> Option<(nat, TokenModel)>
    decreases unread(s, p), 9int,
{
    if !(0 <= p <= s.len()) {
        None
    } else {
        match grouping_spec(s, p) {
            Some(x) => Some(x),
            None => match token_variable_spec(s, p) {
                Some(x) => Some(x),
                None => literal_spec(s, p),
            },
        }
    }
}

/// The number of separators and blanks at `from`.
fn fill_count(s: &[char], from: usize) -> (r: usize)
    requires
        from <= s@.len(),
    ensures
        r == fill_len(s@, from as int),
        from + r <= s@.len(),
{
    let mut k: usize = from;
    while k < s.len() && (s[k] == ';' || s[k] == '\n' || s[k] == ' ' || s[k] == '\t' || s[k] == '\r')
        invariant
            from <= k <= s@.len(),
            (k - from) + fill_len(s@, k as int) == fill_len(s@, from as int),
        decreases s@.len() - k,
    {
        k = k + 1;
    }
    k - from
}

/// Statements separated by `;` or line ends; empty statements are dropped.
/// Never fails: where no statement follows, the list is empty.
pub fn compound_statement(i: Input) -> (r: (Input, Vec<Token>))
    requires
        i.wf(),
    ensures
        r.0.wf(),
        r.0.src@ == i.src@,
        i.pos <= r.0.pos,
        compound_spec(i.src@, i.pos as int) == ((r.0.pos - i.pos) as nat, tokens_view(r.1@)),
    decreases unread(i.src@, i.pos as int), 12int,
{

    let ghost s = i.src@;
    let ghost p = i.pos as int;
    let src = i.src;
    let len = src.len();
    let f = fill_count(src, i.pos);
    let mut cur = i.advance(f);
    let mut acc: Vec<Token> = Vec::new();
    let mut done = false;
    proof {
        lemma_tokens_view_index(acc@);
        assert(tokens_view(acc@) + stmts_spec(s, cur.pos as int).1 =~= stmts_spec(s, cur.pos as int).1);
    }
    while !done
        invariant
            i.wf(),
            s == i.src@,
            p == i.pos as int,
            src@ == s,
            len == s.len(),
            cur.wf(),
            cur.src@ == s,
            p <= cur.pos,
            done ==> compound_spec(s, p) == ((cur.pos - p) as nat, tokens_view(acc@)),
            !done ==> compound_spec(s, p) == (
                (cur.pos - p + stmts_spec(s, cur.pos as int).0) as nat,
                tokens_view(acc@) + stmts_spec(s, cur.pos as int).1,
            ),
        decreases unread(s, cur.pos as int), if done { 0int } else { 1int },
    {
        match statement(cur) {
            Err(_) => {
                assert(tokens_view(acc@) + Seq::<TokenModel>::empty() =~= tokens_view(acc@));
                done = true;
            },
            Ok((j, t)) => {
                let ghost before = tokens_view(acc@);
                let ghost tv = token_view(t);
                proof {
                    lemma_tokens_view_push(acc@, t);
                }
                acc.push(t);
                let b = blank_count(src, j.pos);
                let k = j.pos + b;
                if k < len && (src[k] == ';' || src[k] == '\n') {
                    let f2 = fill_count(src, k);
                    let ghost nxt = stmts_spec(s, k + f2);
                    assert(before + (seq![tv] + nxt.1) =~= tokens_view(acc@) + nxt.1);
                    cur = i.advance(k + f2 - i.pos);
                } else {
                    assert(before + seq![tv] =~= tokens_view(acc@));
                    cur = j;
                    done = true;
                }
            },
        }
    }
    (cur, acc)
}

/// `(` *compound_statement* `)`
pub fn grouping_expression(i: Input) -> (r: Result<(Input, Token), ParseError>)
    requires
        i.wf(),
    ensures
        token_outcome(i, r, tended(i.pos as int, grouping_spec(i.src@, i.pos as int))),
    decreases unread(i.src@, i.pos as int), 8int,
{
    if !i.at1('(') {
        return Err(fail(i));
    }
    let (j, ts) = compound_statement(i.advance(1));
    if j.at1(')') {
        Ok((j.advance(1), Token::Expression(ts)))
    } else {
        Err(fail(i))
    }
}

/// `nil`, `true`, `false`, or a local variable identifier.
pub fn variable_reference(i: Input) -> (r: Result<(Input, Token), ParseError>)
    requires
        i.wf(),
    ensures
        token_outcome(i, r, tended(i.pos as int, token_variable_spec(i.src@, i.pos as int))),
{
    if let Ok((j, _)) = nil_expression(i) {
        return Ok((j, Token::Nil));
    }
    if let Ok((j, _)) = true_expression(i) {
        return Ok((j, Token::Boolean(true)));
    }
    if let Ok((j, _)) = false_expression(i) {
        return Ok((j, Token::Boolean(false)));
    }
    match identifier(i) {
        Ok((j, IdentifierKind::LocalVariable)) => Ok((
            j,
            Token::LocalVariableIdentifier(string_between(i.src, i.pos, j.pos)),
        )),
        _ => Err(fail(i)),
    }
}

/// *numeric_literal* | *string_literal* | *symbol*
pub fn literal(i: Input) -> (r: Result<(Input, Token), ParseError>)
    requires
        i.wf(),
    ensures
        token_outcome(i, r, tended(i.pos as int, literal_spec(i.src@, i.pos as int))),
    decreases unread(i.src@, i.pos as int), 7int,
{
    if let Ok(x) = numeric_literal(i) {
        return Ok(x);
    }
    if let Ok(x) = string_literal(i) {
        return Ok(x);
    }
    symbol(i)
}

/// *grouping_expression* | *variable_reference* | *literal*
pub fn expression(i: Input) -> (r: Result<(Input, Token), ParseError>)
    requires
        i.wf(),
    ensures
        token_outcome(i, r, tended(i.pos as int, expression_spec(i.src@, i.pos as int))),
    decreases unread(i.src@, i.pos as int), 9int,
{
    if let Ok(x) = grouping_expression(i) {
        return Ok(x);
    }
    if let Ok(x) = variable_reference(i) {
        return Ok(x);
    }
    literal(i)
}

} // verus!
