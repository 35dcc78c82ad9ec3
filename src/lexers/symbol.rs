//! Symbols: `:` before a name, or before a quoted string.
use vstd::prelude::*;
use crate::input::{Input, ParseError, at, fail, string_between, string_from};
use crate::lexers::identifier::{identifier, identifier_spec};
use crate::lexers::string::{double_quoted_string, dq_spec, single_quoted_string, sq_spec, tended};
use crate::parsers::binary::unread;
use crate::parsers::operator::{operator_method_name, operator_method_name_len};
use crate::token::{InterpModel, Interpolatable, Token, TokenModel, lemma_tokens_view_index, token_outcome, token_view, tokens_view};
use vstd::string::StringExecFns;

verus! {

/// The end of the symbol name at `p`: an identifier, else an operator
/// method name. Keywords have the shape of identifiers and are taken as such.
pub open spec fn symbol_name_spec(s: Seq<char>, p: int) -> Option<int> {
    match identifier_spec(s, p) {
        Some((e, _)) => Some(e),
        None => if operator_method_name_len(s, p) > 0 {
            Some(p + operator_method_name_len(s, p))
        } else {
            None
        },
    }
}

/// `:` and a symbol name at `p`: the symbol is the whole text.
pub open spec fn symbol_literal_spec(s: Seq<char>, p: int) -> Option<(nat, TokenModel)> {
    if at(s, p, seq![':']) {
        match symbol_name_spec(s, p + 1) {
            Some(e) => Some(((e - p) as nat, TokenModel::Symbol(s.subrange(p, e)))),
            None => None,
        }
    } else {
        None
    }
}

/// The segments of an interpolated symbol: the colon joins the first literal
/// segment, or comes before the first embedded expression.
pub open spec fn colon_first(segs: Seq<TokenModel>) -> Seq<TokenModel> {
    if segs.len() > 0 && segs[0] is Segment {
        seq![TokenModel::Segment(seq![':'] + segs[0]->Segment_0)] + segs.drop_first()
    } else {
        seq![TokenModel::Segment(seq![':'])] + segs
    }
}

/// `:` before a quoted string at `p`.
pub open spec fn dynamic_symbol_spec(s: Seq<char>, p: int) -> Option<(nat, TokenModel)>
    decreases unread(s, p), 5int,
{
    if !(0 <= p <= s.len() && at(s, p, seq![':'])) {
        None
    } else {
        match sq_spec(s, p + 1) {
            Some((n, t)) => Some((n + 1, TokenModel::Symbol(seq![':'] + t))),
            None => match dq_spec(s, p + 1) {
                Some((n, InterpModel::Plain(t))) => Some((n + 1, TokenModel::Symbol(seq![':'] + t))),
                Some((n, InterpModel::Interpolated(segs))) => Some((
                    n + 1,
                    TokenModel::InterpolatedSymbol(colon_first(segs)),
                )),
                None => None,
            },
        }
    }
}

/// A symbol literal, else a dynamic symbol.
pub open spec fn symbol_spec(s: Seq<char>, p: int) -> Option<(nat, TokenModel)>
    decreases unread(s, p), 6int,
{
    if !(0 <= p <= s.len()) {
        None
    } else {
        match symbol_literal_spec(s, p) {
            Some(x) => Some(x),
            None => dynamic_symbol_spec(s, p),
        }
    }
}

/// *identifier* | *operator_method_name*: the input after the name.
pub fn symbol_name(i: Input) -> (r: Result<Input, ParseError>)
    requires
        i.wf(),
    ensures
        match r {
            Ok(j) => j.wf() && j.src@ == i.src@ && i.pos < j.pos && symbol_name_spec(i.src@, i.pos as int) == Some(j.pos as int),
            Err(e) => symbol_name_spec(i.src@, i.pos as int) is None && e.pos == i.pos,
        },
{
    if let Ok((j, _)) = identifier(i) {
        return Ok(j);
    }
    operator_method_name(i)
}

/// `:` *symbol_name*: the symbol's text is all that was consumed.
pub fn symbol_literal(i: Input) -> (r: Result<(Input, Token), ParseError>)
    requires
        i.wf(),
    ensures
        token_outcome(i, r, tended(i.pos as int, symbol_literal_spec(i.src@, i.pos as int))),
{
    if !i.at1(':') {
        return Err(fail(i));
    }
    match symbol_name(i.advance(1)) {
        Ok(j) => Ok((j, Token::Symbol(string_between(i.src, i.pos, j.pos)))),
        Err(_) => Err(fail(i)),
    }
}

/// The text `:` followed by `t`.
fn with_colon(t: String) -> (r: String)
    ensures
        r@ == seq![':'] + t@,
{
    proof {
        reveal_strlit(":");
    }
    String::from_str(":").concat(t.as_str())
}

#[verifier::rlimit(40)]
/// `:` and a quoted string. A plain text gives a symbol of `:` and that text;
/// an interpolated one gives an interpolated symbol whose first literal
/// segment carries the colon.
pub fn dynamic_symbol(i: Input) -> (r: Result<(Input, Token), ParseError>)
    requires
        i.wf(),
    ensures
        token_outcome(i, r, tended(i.pos as int, dynamic_symbol_spec(i.src@, i.pos as int))),
    decreases unread(i.src@, i.pos as int), 5int,
{
    if !i.at1(':') {
        return Err(fail(i));
    }
    if let Ok((j, t)) = single_quoted_string(i.advance(1)) {
        return Ok((j, Token::Symbol(with_colon(t))));
    }
    match double_quoted_string(i.advance(1)) {
        Ok((j, Interpolatable::String(t))) => Ok((j, Token::Symbol(with_colon(t)))),
        Ok((j, Interpolatable::Interpolated(mut segs))) => {
            let ghost old = segs@;
            proof {
                lemma_tokens_view_index(old);
            }
            let first_is_segment = segs.len() > 0 && match &segs[0] {
                Token::Segment(_) => true,
                _ => false,
            };
            if first_is_segment {
                let first = segs.remove(0);
                let t = match first {
                    Token::Segment(x) => Token::Segment(with_colon(x)),
                    other => other,
                };
                segs.insert(0, t);
                proof {
                    lemma_tokens_view_index(segs@);
                    assert(segs@ =~= seq![t] + old.drop_first());
                    assert(tokens_view(segs@) =~= colon_first(tokens_view(old)));
                }
            } else {
                let t = Token::Segment(with_colon(String::new()));
                segs.insert(0, t);
                proof {
                    lemma_tokens_view_index(segs@);
                    assert(seq![':'] + Seq::<char>::empty() =~= seq![':']);
                    assert(segs@ =~= seq![t] + old);
                    assert(tokens_view(segs@) =~= colon_first(tokens_view(old)));
                }
            }
            Ok((j, Token::InterpolatedSymbol(segs)))
        },
        Err(_) => Err(fail(i)),
    }
}

/// *symbol_literal* | *dynamic_symbol*
pub fn symbol(i: Input) -> (r: Result<(Input, Token), ParseError>)
    requires
        i.wf(),
    ensures
        token_outcome(i, r, tended(i.pos as int, symbol_spec(i.src@, i.pos as int))),
    decreases unread(i.src@, i.pos as int), 6int,
{
    if let Ok(x) = symbol_literal(i) {
        return Ok(x);
    }
    dynamic_symbol(i)
}

} // verus!
