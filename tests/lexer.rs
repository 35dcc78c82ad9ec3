use ruby_parser::ast::Decimal;
use ruby_parser::input::{ErrorKind, Input, ParseError};
use ruby_parser::lexers::comment::{comment, eof, line_content, multi_line_comment, multi_line_comment_begin_line, multi_line_comment_end_line, multi_line_comment_line, single_line_comment};
use ruby_parser::lexers::expression::compound_statement;
use ruby_parser::lexers::symbol::{dynamic_symbol, symbol_literal};
use ruby_parser::parsers::statement::statement;
use ruby_parser::token::Interpolatable;
use ruby_parser::{expression, string_literal, symbol, Token};

fn chars(s: &str) -> Vec<char> {
    s.chars().collect()
}

/// The value, where the parser takes the whole text.
fn complete<T>(f: for<'a> fn(Input<'a>) -> Result<(Input<'a>, T), ParseError>, s: &str) -> Option<T> {
    let cs = chars(s);
    match f(Input::new(&cs)) {
        Ok((rest, v)) if rest.is_empty() => Some(v),
        _ => None,
    }
}

/// The value and what is left, where the parser succeeds.
fn partial<T>(f: for<'a> fn(Input<'a>) -> Result<(Input<'a>, T), ParseError>, s: &str) -> Option<(T, String)> {
    let cs = chars(s);
    match f(Input::new(&cs)) {
        Ok((rest, v)) => Some((v, rest.rest().into_iter().collect())),
        Err(_) => None,
    }
}

fn float_value(t: &Token) -> f64 {
    match t {
        Token::Float(Decimal { mantissa, exponent }) => {
            if *exponent >= 0 {
                (*mantissa as f64) * 10f64.powi(*exponent as i32)
            } else {
                (*mantissa as f64) / 10f64.powi(-*exponent as i32)
            }
        }
        _ => panic!("not a decimal: {:?}", t),
    }
}

fn s(x: &str) -> String {
    x.to_owned()
}

#[test]
fn test_single_line_comment() {
    assert!(partial(single_line_comment, "").is_none());
    assert!(partial(single_line_comment, "foobar").is_none());
    assert!(partial(single_line_comment, "  # meh").is_none());
    assert_eq!(partial(single_line_comment, "#").unwrap().0, "#".to_owned());
    assert_eq!(partial(single_line_comment, "#This is a comment\n").unwrap().0, "#This is a comment".to_owned());
    assert_eq!(partial(single_line_comment, "# Additional space\n").unwrap().0, "# Additional space".to_owned());
    assert_eq!(partial(single_line_comment, "# With newline\nfoobar\n").unwrap().0, "# With newline".to_owned());
}

#[test]
fn test_expression() {
    assert!(complete(expression, "").is_none());
    assert!(complete(expression, "nil ").is_none());
    assert!(complete(expression, "bar\n").is_none());
    assert!(complete(expression, "('").is_none());
    assert!(complete(expression, "((foo)").is_none());
    assert_eq!(complete(expression, "nil"), Some(Token::Nil));
    assert_eq!(complete(expression, "42"), Some(Token::Integer(42)));
    assert_eq!(float_value(&complete(expression, "24.2").unwrap()), 24.2);
    assert_eq!(complete(expression, "meh"), Some(Token::LocalVariableIdentifier(s("meh"))));
    assert_eq!(float_value(&complete(expression, "-23e4").unwrap()), -230000.0);
    assert_eq!(complete(expression, "'hello world'"), Some(Token::SingleQuotedString(s("hello world"))));
    assert_eq!(complete(expression, "()"), Some(Token::Expression(vec![])));
    assert_eq!(
        complete(expression, "((false))"),
        Some(Token::Expression(vec![Token::Expression(vec![Token::Boolean(false)])]))
    );
    assert_eq!(
        complete(expression, "(2;; 5;)"),
        Some(Token::Expression(vec![Token::Integer(2), Token::Integer(5)]))
    );
}

#[test]
fn single_line_comment_keeps_whole_line() {
    let text = "# a comment, with = and =end";
    assert_eq!(partial(single_line_comment, text), Some((s(text), s(""))));
    assert_eq!(partial(comment, "#x\ny"), Some((s("#x"), s("\ny"))));
}

#[test]
fn multi_line_comment_at_line_start() {
    let text = "=begin here\nline one\n\nline two\n=end there\nrest";
    assert_eq!(
        partial(multi_line_comment, text),
        Some((s("=begin here\nline one\n\nline two\n=end there\n"), s("rest")))
    );
    assert_eq!(partial(comment, "=begin\n=end"), Some((s("=begin\n=end"), s(""))));
    assert!(partial(multi_line_comment, "=begin\nno end\n").is_none());
}

#[test]
fn multi_line_comment_mid_line_fails() {
    let cs = chars("x =begin\ntext\n=end\n");
    let i = Input { src: &cs, pos: 2 };
    assert!(multi_line_comment(i).is_err());
    let cs = chars("x\n=begin\ntext\n=end\n");
    let i = Input { src: &cs, pos: 2 };
    assert!(multi_line_comment(i).is_ok());
}

#[test]
fn symbols() {
    assert_eq!(partial(symbol_literal, ":foo"), Some((Token::Symbol(s(":foo")), s(""))));
    assert_eq!(partial(symbol, ":<=>"), Some((Token::Symbol(s(":<=>")), s(""))));
    assert_eq!(partial(dynamic_symbol, ":'a b'"), Some((Token::Symbol(s(":a b")), s(""))));
    assert_eq!(partial(symbol, ":\"a b\""), Some((Token::Symbol(s(":a b")), s(""))));
    let r = complete(dynamic_symbol, ":\"a#{1}b\"").unwrap();
    assert_eq!(
        r,
        Token::InterpolatedSymbol(vec![
            Token::Segment(s(":a")),
            Token::Expression(vec![Token::Integer(1)]),
            Token::Segment(s("b")),
        ])
    );
    let r = complete(symbol, ":\"#{x}\"").unwrap();
    assert_eq!(
        r,
        Token::InterpolatedSymbol(vec![
            Token::Segment(s(":")),
            Token::Expression(vec![Token::LocalVariableIdentifier(s("x"))]),
        ])
    );
    assert!(partial(symbol, ":'open").is_none());
}

#[test]
fn strings() {
    assert_eq!(complete(string_literal, "'it\\'s \\\\ \\n'"), Some(Token::SingleQuotedString(s("it's \\ \\n"))));
    assert_eq!(
        complete(string_literal, "\"tab\\there\""),
        Some(Token::DoubleQuotedString(Interpolatable::String(s("tab\there"))))
    );
    assert_eq!(
        complete(string_literal, "\"x#{1; 2}\""),
        Some(Token::DoubleQuotedString(Interpolatable::Interpolated(vec![
            Token::Segment(s("x")),
            Token::Expression(vec![Token::Integer(1), Token::Integer(2)]),
        ])))
    );
    assert!(complete(string_literal, "\"unterminated").is_none());
    assert_eq!(complete(string_literal, "\"\""), Some(Token::DoubleQuotedString(Interpolatable::String(s("")))));
}

#[test]
fn numbers() {
    assert_eq!(complete(expression, "-5"), Some(Token::Integer(-5)));
    assert_eq!(complete(expression, "+7"), Some(Token::Integer(7)));
    assert_eq!(complete(expression, "1.25e-2"), Some(Token::Float(Decimal { mantissa: 125, exponent: -4 })));
    assert!(complete(expression, "99999999999999999999999").is_none());
    assert_eq!(partial(expression, "3."), Some((Token::Integer(3), s("."))));
}

#[test]
fn grouping_drops_empty_statements() {
    assert_eq!(
        complete(expression, "(\n1\n\n;2 ; 3\n)"),
        Some(Token::Expression(vec![Token::Integer(1), Token::Integer(2), Token::Integer(3)]))
    );
    let cs = chars(";;");
    let (rest, v) = compound_statement(Input::new(&cs));
    assert!(v.is_empty());
    assert!(rest.is_empty());
}

#[test]
fn statement_errors() {
    let cs = chars(")");
    let e = statement(Input::new(&cs)).unwrap_err();
    assert_eq!(e, ParseError { kind: ErrorKind::Unimplemented, pos: 0 });
    let cs = chars("");
    assert_eq!(expression(Input::new(&cs)).unwrap_err().kind, ErrorKind::EndOfInput);
    let cs = chars("?");
    assert_eq!(single_line_comment(Input::new(&cs)).unwrap_err().kind, ErrorKind::UnexpectedCharacter);
}

#[test]
fn comment_lines() {
    let cs = chars("=begin x\n=end");
    let j = multi_line_comment_begin_line(Input::new(&cs)).unwrap();
    assert_eq!(j.position(), 9);
    let k = multi_line_comment_end_line(j).unwrap();
    assert!(k.is_empty());
    assert!(multi_line_comment_line(j).is_err());
    let cs = chars("body\n=end\n");
    assert_eq!(multi_line_comment_line(Input::new(&cs)).unwrap().position(), 5);
    let cs = chars(" =begin\n=end\n");
    assert!(multi_line_comment_begin_line(Input { src: &cs, pos: 1 }).is_err());
    assert_eq!(partial(line_content, "ab\ncd"), Some((s("ab"), s("\ncd"))));
    assert!(partial(line_content, "\n").is_none());
}

#[test]
fn end_of_input() {
    let cs = chars("a");
    let i = Input::new(&cs);
    assert!(eof(i).is_err());
    assert!(eof(i.advance(1)).is_ok());
}

#[test]
fn unterminated_literals_are_malformed() {
    let cs = chars("'open");
    assert_eq!(string_literal(Input::new(&cs)).unwrap_err(), ParseError { kind: ErrorKind::MalformedLiteral, pos: 0 });
    let cs = chars("\"a#{1\"");
    assert_eq!(string_literal(Input::new(&cs)).unwrap_err().kind, ErrorKind::MalformedLiteral);
    let cs = chars("x");
    assert_eq!(string_literal(Input::new(&cs)).unwrap_err().kind, ErrorKind::UnexpectedCharacter);
}
