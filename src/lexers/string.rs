//! Quoted strings: single-quoted without interpolation, double-quoted with
//! embedded `#{...}` expressions.
use vstd::prelude::*;
use crate::input::{ErrorKind, Input, ParseError, at, fail, fail_kind, string_from};
use crate::lexers::expression::{compound_spec, compound_statement};
use crate::token::{InterpModel, Interpolatable, Token, TokenModel, lemma_tokens_view_index, lemma_tokens_view_push, tokens_view, token_outcome};
use crate::parsers::binary::unread;

verus! {

/// The body of a single-quoted string from `q` on: the characters it takes,
/// the closing quote included, and its text. A backslash before a quote or a
/// backslash stands for that character; any other backslash stays.
pub open spec fn sq_body(s: Seq<char>, q: int) -> Option<(nat, Seq<char>)>
    decreases s.len() - q,
{
    if !(0 <= q < s.len()) {
        None
    } else if s[q] == '\'' {
        Some((1, Seq::empty()))
    } else if s[q] == '\\' && q + 1 < s.len() && (s[q + 1] == '\'' || s[q + 1] == '\\') {
        match sq_body(s, q + 2) {
            Some((n, t)) => Some((n + 2, seq![s[q + 1]] + t)),
            None => None,
        }
    } else {
        match sq_body(s, q + 1) {
            Some((n, t)) => Some((n + 1, seq![s[q]] + t)),
            None => None,
        }
    }
}

/// The single-quoted string at `p`: what it takes and its text.
#[verifier::opaque]
pub open spec fn sq_spec(s: Seq<char>, p: int) -> Option<(nat, Seq<char>)> {
    if at(s, p, seq!['\'']) {
        match sq_body(s, p + 1) {
            Some((n, t)) => Some((n + 1, t)),
            None => None,
        }
    } else {
        None
    }
}

/// The kind of a failure at `p` of a literal that opens with `quote`: a
/// literal that was opened but does not close is malformed.
pub open spec fn opened_kind(s: Seq<char>, p: int, quote: char) -> ErrorKind {
    if at(s, p, seq![quote]) {
        ErrorKind::MalformedLiteral
    } else {
        fail_kind(s, p)
    }
}

/// The character that a backslash followed by `c` stands for in a
/// double-quoted string.
pub open spec fn unescape(c: char) -> char {
    if c == 'n' {
        '\n'
    } else if c == 't' {
        '\t'
    } else if c == 'r' {
        '\r'
    } else if c == 's' {
        ' '
    } else if c == '0' {
        '\0'
    } else if c == 'e' {
        '\x1b'
    } else {
        c
    }
}

/// A segment for a literal run, or nothing for an empty one.
pub open spec fn seg(t: Seq<char>) -> Seq<TokenModel> {
    if t.len() > 0 {
        seq![TokenModel::Segment(t)]
    } else {
        Seq::empty()
    }
}

/// The value of a double-quoted string whose segments so far are `segs`,
/// whose current literal run is `text` and whose later segments are `rest`:
/// plain text when nothing was embedded.
pub open spec fn finish(segs: Seq<TokenModel>, text: Seq<char>, rest: Seq<TokenModel>) -> InterpModel {
    if segs.len() == 0 && rest.len() == 0 {
        InterpModel::Plain(text)
    } else {
        InterpModel::Interpolated(segs + seg(text) + rest)
    }
}

/// The body of a double-quoted string from `q` on: the characters it takes,
/// the closing quote included; the literal text before its first embedded
/// expression; and the segments from that expression on.
#[verifier::opaque]
pub open spec fn dq_body(s: Seq<char>, q: int) -> Option<(nat, Seq<char>, Seq<TokenModel>)>
    decreases unread(s, q), 2int,
{
    if !(0 <= q < s.len()) {
        None
    } else if s[q] == '"' {
        Some((1, Seq::empty(), Seq::empty()))
    } else if at(s, q, seq!['#', '{']) {
        let (n, ts) = compound_spec(s, q + 2);
        if at(s, q + 2 + n, seq!['}']) {
            match dq_body(s, q + 3 + n) {
                Some((m, t, rest)) => Some((
                    3 + n + m,
                    Seq::empty(),
                    seq![TokenModel::Expression(ts)] + seg(t) + rest,
                )),
                None => None,
            }
        } else {
            None
        }
    } else if s[q] == '\\' && q + 1 < s.len() {
        match dq_body(s, q + 2) {
            Some((m, t, rest)) => Some((m + 2, seq![unescape(s[q + 1])] + t, rest)),
            None => None,
        }
    } else {
        match dq_body(s, q + 1) {
            Some((m, t, rest)) => Some((m + 1, seq![s[q]] + t, rest)),
            None => None,
        }
    }
}

/// The double-quoted string at `p`: what it takes and its value.
#[verifier::opaque]
pub open spec fn dq_spec(s: Seq<char>, p: int) -> Option<(nat, InterpModel)>
    decreases unread(s, p), 3int,
{
    if !(0 <= p <= s.len()) {
        None
    } else if at(s, p, seq!['"']) {
        match dq_body(s, p + 1) {
            Some((m, t, rest)) => Some((m + 1, finish(Seq::empty(), t, rest))),
            None => None,
        }
    } else {
        None
    }
}

/// A single-quoted string, else a double-quoted one.
#[verifier::opaque]
pub open spec fn string_literal_spec(s: Seq<char>, p: int) -> Option<(nat, TokenModel)>
    decreases unread(s, p), 4int,
{
    if !(0 <= p <= s.len()) {
        None
    } else {
        match sq_spec(s, p) {
            Some((n, t)) => Some((n, TokenModel::SingleQuotedString(t))),
            None => match dq_spec(s, p) {
                Some((n, v)) => Some((n, TokenModel::DoubleQuotedString(v))),
                None => None,
            },
        }
    }
}

/// The outcome of a lexer that consumed `n` characters from `p`, as an end position.
pub open spec fn tended(p: int, m: Option<(nat, TokenModel)>) -> Option<(int, TokenModel)> {
    match m {
        Some((n, x)) => Some((p + n, x)),
        None => None,
    }
}

fn unescape_exec(c: char) -> (r: char)
    ensures
        r == unescape(c),
{
    if c == 'n' {
        '\n'
    } else if c == 't' {
        '\t'
    } else if c == 'r' {
        '\r'
    } else if c == 's' {
        ' '
    } else if c == '0' {
        '\0'
    } else if c == 'e' {
        '\x1b'
    } else {
        c
    }
}

/// `'` ... `'`: no interpolation; `\'` and `\\` stand for the quote and the
/// backslash, and any other backslash stays as it is.
pub fn single_quoted_string(i: Input) -> (r: Result<(Input, String), ParseError>)
    requires
        i.wf(),
    ensures
        match r {
            Ok((j, t)) => j.wf() && j.src@ == i.src@ && i.pos <= j.pos
                && sq_spec(i.src@, i.pos as int) == Some(((j.pos - i.pos) as nat, t@)),
            Err(e) => sq_spec(i.src@, i.pos as int) is None && e.pos == i.pos
                && e.kind == opened_kind(i.src@, i.pos as int, '\''),
        },
{
    reveal(sq_spec);
    let ghost s = i.src@;
    let ghost p = i.pos as int;
    if !i.at1('\'') {
        return Err(fail(i));
    }
    let src = i.src;
    let len = src.len();
    let mut q: usize = i.pos + 1;
    let mut text: Vec<char> = Vec::new();
    proof {
        match sq_body(s, q as int) {
            Some((n, t)) => assert(text@ + t =~= t),
            None => {},
        }
    }
    loop
        invariant
            i.wf(),
            s == i.src@,
            p == i.pos as int,
            len == s.len(),
            src@ == s,
            p < q <= len,
            at(s, p, seq!['\'']),
            sq_body(s, p + 1) == match sq_body(s, q as int) {
                Some((n, t)) => Some(((q - p - 1 + n) as nat, text@ + t)),
                None => None,
            },
        decreases len - q,
    {
        proof {
            reveal(sq_spec);
        }
        if q >= len {
            return Err(ParseError { kind: ErrorKind::MalformedLiteral, pos: i.pos });
        }
        let c = src[q];
        if c == '\'' {
            assert(text@ + Seq::<char>::empty() =~= text@);
            let j = i.advance(q + 1 - i.pos);
            return Ok((j, string_from(text)));
        }
        if c == '\\' && q + 1 < len && (src[q + 1] == '\'' || src[q + 1] == '\\') {
            let ghost old_text = text@;
            text.push(src[q + 1]);
            proof {
                match sq_body(s, q + 2) {
                    Some((n, t)) => {
                        assert(old_text + (seq![s[q + 1]] + t) =~= text@ + t);
                    },
                    None => {},
                }
            }
            q = q + 2;
        } else {
            let ghost old_text = text@;
            text.push(c);
            proof {
                match sq_body(s, q + 1) {
                    Some((n, t)) => {
                        assert(old_text + (seq![s[q as int]] + t) =~= text@ + t);
                    },
                    None => {},
                }
            }
            q = q + 1;
        }
    }
}

#[verifier::rlimit(40)]
/// `"` ... `"`, with escapes, and with `#{` *compound_statement* `}` for an
/// embedded expression.
pub fn double_quoted_string(i: Input) -> (r: Result<(Input, Interpolatable), ParseError>)
    requires
        i.wf(),
    ensures
        match r {
            Ok((j, v)) => j.wf() && j.src@ == i.src@ && i.pos <= j.pos
                && dq_spec(i.src@, i.pos as int) == Some(((j.pos - i.pos) as nat, v@)),
            Err(e) => dq_spec(i.src@, i.pos as int) is None && e.pos == i.pos
                && e.kind == opened_kind(i.src@, i.pos as int, '"'),
        },
    decreases unread(i.src@, i.pos as int), 3int,
{
    reveal(dq_body);
    reveal(dq_spec);
    let ghost s = i.src@;
    let ghost p = i.pos as int;
    if !i.at1('"') {
        return Err(fail(i));
    }
    let src = i.src;
    let len = src.len();
    let mut q: usize = i.pos + 1;
    let mut segs: Vec<Token> = Vec::new();
    let mut run: Vec<char> = Vec::new();
    proof {
        lemma_tokens_view_index(segs@);
        assert(tokens_view(segs@) =~= Seq::<TokenModel>::empty());
        match dq_body(s, q as int) {
            Some((m, t, rest)) => assert(run@ + t =~= t),
            None => {},
        }
    }
    loop
        invariant
            i.wf(),
            s == i.src@,
            p == i.pos as int,
            len == s.len(),
            src@ == s,
            p < q <= len,
            at(s, p, seq!['"']),
            dq_spec(s, p) == match dq_body(s, q as int) {
                Some((m, t, rest)) => Some((
                    (q - p + m) as nat,
                    finish(tokens_view(segs@), run@ + t, rest),
                )),
                None => None,
            },
        decreases len - q,
    {
        proof {
            reveal(dq_body);
        }
        if q >= len {
            return Err(ParseError { kind: ErrorKind::MalformedLiteral, pos: i.pos });
        }
        let c = src[q];
        let here = i.advance(q - i.pos);
        if c == '"' {
            assert(run@ + Seq::<char>::empty() =~= run@);
            let j = i.advance(q + 1 - i.pos);
            if segs.len() == 0 {
                return Ok((j, Interpolatable::String(string_from(run))));
            }
            let ghost before = tokens_view(segs@);
            if run.len() > 0 {
                let ghost rv = run@;
                let t = Token::Segment(string_from(run));
                proof {
                    lemma_tokens_view_push(segs@, t);
                }
                segs.push(t);
                assert(tokens_view(segs@) =~= before + seg(rv) + Seq::<TokenModel>::empty());
            } else {
                assert(tokens_view(segs@) =~= before + seg(run@) + Seq::<TokenModel>::empty());
            }
            return Ok((j, Interpolatable::Interpolated(segs)));
        }
        if here.at2('#', '{') {
            let (j, ts) = compound_statement(i.advance(q + 2 - i.pos));
            if !j.at1('}') {
                return Err(ParseError { kind: ErrorKind::MalformedLiteral, pos: i.pos });
            }
            let ghost before = tokens_view(segs@);
            let ghost rv = run@;
            if run.len() > 0 {
                let t = Token::Segment(string_from(run));
                proof {
                    lemma_tokens_view_push(segs@, t);
                }
                segs.push(t);
            }
            assert(tokens_view(segs@) =~= before + seg(rv));
            let ghost mid = tokens_view(segs@);
            let e = Token::Expression(ts);
            proof {
                lemma_tokens_view_push(segs@, e);
            }
            segs.push(e);
            run = Vec::new();
            proof {
                match dq_body(s, j.pos + 1) {
                    Some((m, t, rest)) => {
                        let x = seq![TokenModel::Expression(tokens_view(ts@))];
                        assert(tokens_view(segs@) == mid.push(x[0]));
                        assert(before + seg(rv + Seq::<char>::empty()) + (x + seg(t) + rest)
                            =~= tokens_view(segs@) + seg(run@ + t) + rest);
                        assert(rv + Seq::<char>::empty() =~= rv);
                        assert(run@ + t =~= t);
                    },
                    None => {},
                }
            }
            q = j.pos + 1;
        } else if c == '\\' && q + 1 < len {
            let ghost old_run = run@;
            run.push(unescape_exec(src[q + 1]));
            proof {
                match dq_body(s, q + 2) {
                    Some((m, t, rest)) => {
                        assert(old_run + (seq![unescape(s[q + 1])] + t) =~= run@ + t);
                    },
                    None => {},
                }
            }
            q = q + 2;
        } else {
            let ghost old_run = run@;
            run.push(c);
            proof {
                match dq_body(s, q + 1) {
                    Some((m, t, rest)) => {
                        assert(old_run + (seq![s[q as int]] + t) =~= run@ + t);
                    },
                    None => {},
                }
            }
            q = q + 1;
        }
    }
}

/// A single-quoted string as a token.
fn single_quoted_token(i: Input) -> (r: Result<(Input, Token), ParseError>)
    requires
        i.wf(),
    ensures
        token_outcome(i, r, tended(i.pos as int, match sq_spec(i.src@, i.pos as int) {
            Some((n, t)) => Some((n, TokenModel::SingleQuotedString(t))),
            None => None,
        })),
        r matches Err(e) ==> e.kind == opened_kind(i.src@, i.pos as int, '\''),
{
    match single_quoted_string(i) {
        Ok((j, t)) => Ok((j, Token::SingleQuotedString(t))),
        Err(e) => Err(e),
    }
}

/// A double-quoted string as a token.
fn double_quoted_token(i: Input) -> (r: Result<(Input, Token), ParseError>)
    requires
        i.wf(),
    ensures
        token_outcome(i, r, tended(i.pos as int, match dq_spec(i.src@, i.pos as int) {
            Some((n, v)) => Some((n, TokenModel::DoubleQuotedString(v))),
            None => None,
        })),
        r matches Err(e) ==> e.kind == opened_kind(i.src@, i.pos as int, '"'),
    decreases unread(i.src@, i.pos as int), 4int,
{
    match double_quoted_string(i) {
        Ok((j, v)) => Ok((j, Token::DoubleQuotedString(v))),
        Err(e) => Err(e),
    }
}

/// *single_quoted_string* | *double_quoted_string*
#[verifier::spinoff_prover]
#[verifier::rlimit(100)]
pub fn string_literal(i: Input) -> (r: Result<(Input, Token), ParseError>)
    requires
        i.wf(),
    ensures
        token_outcome(i, r, tended(i.pos as int, string_literal_spec(i.src@, i.pos as int))),
        r matches Err(e) ==> e.kind == (if at(i.src@, i.pos as int, seq!['\'']) {
            ErrorKind::MalformedLiteral
        } else {
            opened_kind(i.src@, i.pos as int, '"')
        }),
    decreases unread(i.src@, i.pos as int), 5int,
{
    reveal(string_literal_spec);
    reveal(dq_spec);
    proof {
        let s = i.src@;
        let p = i.pos as int;
        if at(s, p, seq!['\'']) {
            assert(s.subrange(p, p + 1)[0] == seq!['\''][0]);
            assert(!at(s, p, seq!['"']));
        }
    }
    match single_quoted_token(i) {
        Ok(x) => return Ok(x),
        Err(e) => if i.at1('\'') {
            return Err(e);
        },
    }
    double_quoted_token(i)
}

} // verus!
