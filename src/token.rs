//! The values produced by the lexical layer.
use vstd::prelude::*;
use crate::ast::Decimal;
use crate::input::{Input, ParseError, fail_kind};

verus! {

/// A lexical value.
#[derive(Debug, PartialEq)]
pub enum Token {
    Nil,
    Boolean(bool),
    Integer(isize),
    Float(Decimal),
    LocalVariableIdentifier(String),
    SingleQuotedString(String),
    DoubleQuotedString(Interpolatable),
    Symbol(String),
    InterpolatedSymbol(Vec<Token>),
    Segment(String),
    Expression(Vec<Token>),
}

/// The text of a literal that may embed expressions: plain text, or literal
/// segments interleaved with embedded expressions.
#[derive(Debug, PartialEq)]
pub enum Interpolatable {
    String(String),
    Interpolated(Vec<Token>),
}

/// The mathematical value of a token.
pub enum TokenModel {
    Nil,
    Boolean(bool),
    Integer(int),
    Float(int, int),
    LocalVariableIdentifier(Seq<char>),
    SingleQuotedString(Seq<char>),
    DoubleQuotedString(InterpModel),
    Symbol(Seq<char>),
    InterpolatedSymbol(Seq<TokenModel>),
    Segment(Seq<char>),
    Expression(Seq<TokenModel>),
}

/// The mathematical value of an `Interpolatable`.
pub enum InterpModel {
    Plain(Seq<char>),
    Interpolated(Seq<TokenModel>),
}

/// The model of a token.
pub open spec fn token_view(t: Token) -> TokenModel
    decreases t,
{
    match t {
        Token::Nil => TokenModel::Nil,
        Token::Boolean(b) => TokenModel::Boolean(b),
        Token::Integer(v) => TokenModel::Integer(v as int),
        Token::Float(d) => TokenModel::Float(d.mantissa as int, d.exponent as int),
        Token::LocalVariableIdentifier(s) => TokenModel::LocalVariableIdentifier(s@),
        Token::SingleQuotedString(s) => TokenModel::SingleQuotedString(s@),
        Token::DoubleQuotedString(i) => TokenModel::DoubleQuotedString(interp_view(i)),
        Token::Symbol(s) => TokenModel::Symbol(s@),
        Token::InterpolatedSymbol(v) => TokenModel::InterpolatedSymbol(tokens_view(v@)),
        Token::Segment(s) => TokenModel::Segment(s@),
        Token::Expression(v) => TokenModel::Expression(tokens_view(v@)),
    }
}

/// The model of an `Interpolatable`.
pub open spec fn interp_view(i: Interpolatable) -> InterpModel
    decreases i,
{
    match i {
        Interpolatable::String(s) => InterpModel::Plain(s@),
        Interpolatable::Interpolated(v) => InterpModel::Interpolated(tokens_view(v@)),
    }
}

/// The models of a sequence of tokens, element by element.
pub open spec fn tokens_view(v: Seq<Token>) -> Seq<TokenModel>
    decreases v,
{
    if v.len() == 0 {
        Seq::empty()
    } else {
        tokens_view(v.drop_last()).push(token_view(v.last()))
    }
}

impl View for Token {
    type V = TokenModel;

    open spec fn view(&self) -> TokenModel {
        token_view(*self)
    }
}

impl View for Interpolatable {
    type V = InterpModel;

    open spec fn view(&self) -> InterpModel {
        interp_view(*self)
    }
}

/// Pushing a token adds its model at the end.
pub proof fn lemma_tokens_view_push(v: Seq<Token>, t: Token)
    ensures
        tokens_view(v.push(t)) == tokens_view(v).push(token_view(t)),
        tokens_view(v.push(t)).len() == v.len() + 1,
{
    assert(v.push(t).drop_last() =~= v);
    lemma_tokens_view_len(v);
}

/// The model of a sequence of tokens holds the model of each token, in order.
pub proof fn lemma_tokens_view_index(v: Seq<Token>)
    ensures
        tokens_view(v).len() == v.len(),
        forall|k: int| 0 <= k < v.len() ==> #[trigger] tokens_view(v)[k] == token_view(v[k]),
    decreases v.len(),
{
    if v.len() > 0 {
        lemma_tokens_view_index(v.drop_last());
        assert forall|k: int| 0 <= k < v.len() implies #[trigger] tokens_view(v)[k] == token_view(v[k]) by {
            if k < v.len() - 1 {
                assert(v.drop_last()[k] == v[k]);
            }
        }
    }
}

pub proof fn lemma_tokens_view_len(v: Seq<Token>)
    ensures
        tokens_view(v).len() == v.len(),
    decreases v.len(),
{
    if v.len() > 0 {
        lemma_tokens_view_len(v.drop_last());
    }
}

/// What a token lexer that is specified by `m` does on input `i`.
pub open spec fn token_outcome(
    i: Input,
    r: Result<(Input, Token), ParseError>,
    m: Option<(int, TokenModel)>,
) -> bool {
    match r {
        Ok((j, t)) => j.wf() && j.src@ == i.src@ && i.pos <= j.pos && m == Some((j.pos as int, t@)),
        Err(e) => m is None && e.pos == i.pos,
    }
}

/// What a lexer that yields text and is specified by `m` (the end position)
/// does on input `i`: the text is the span it consumed.
pub open spec fn text_outcome(
    i: Input,
    r: Result<(Input, String), ParseError>,
    m: Option<int>,
) -> bool {
    match r {
        Ok((j, t)) => j.wf() && j.src@ == i.src@ && i.pos <= j.pos && m == Some(j.pos as int)
            && t@ == i.src@.subrange(i.pos as int, j.pos as int),
        Err(e) => m is None && e.pos == i.pos && e.kind == fail_kind(i.src@, i.pos as int),
    }
}

} // verus!
