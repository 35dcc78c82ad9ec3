use ruby_parser::ast::{BinaryOpKind, ConditionalKind, IdentifierKind, UnaryOpKind};
use ruby_parser::input::{Input, ParseError};
use ruby_parser::parsers::binary::{additive_expression, equality_expression, power_expression};
use ruby_parser::parsers::operator::{assignment_operator, operator, operator_method_name};
use ruby_parser::parsers::variable::{_scoped_constant_reference, simple_scoped_constant_reference, variable_reference};
use ruby_parser::Node;

fn chars(s: &str) -> Vec<char> {
    s.chars().collect()
}

/// The node, where the parser takes the whole text.
fn complete(f: for<'a> fn(Input<'a>) -> Result<(Input<'a>, Node), ParseError>, s: &str) -> Option<Node> {
    let cs = chars(s);
    match f(Input::new(&cs)) {
        Ok((rest, v)) if rest.is_empty() => Some(v),
        _ => None,
    }
}

/// How many characters a lexer of operators takes.
fn taken(f: for<'a> fn(Input<'a>) -> Result<Input<'a>, ParseError>, s: &str) -> Option<usize> {
    let cs = chars(s);
    f(Input::new(&cs)).ok().map(|j| j.position())
}

fn num(v: isize) -> Node {
    Node::integer(v)
}

fn bin(l: Node, op: BinaryOpKind, r: Node) -> Node {
    Node::binary_op(l, op, r)
}

#[test]
fn test_variable_reference() {
    assert!(complete(variable_reference, "").is_none());
    assert!(complete(variable_reference, "nil ").is_none());
    assert!(complete(variable_reference, "bar\n").is_none());
    assert_eq!(complete(variable_reference, "nil"), Some(Node::Nil));
    assert_eq!(complete(variable_reference, "true"), Some(Node::boolean(true)));
    assert_eq!(complete(variable_reference, "false"), Some(Node::boolean(false)));
    assert_eq!(complete(variable_reference, "self"), Some(Node::Self_));
    assert_eq!(complete(variable_reference, "TRUE"), Some(Node::ident("TRUE", IdentifierKind::Constant)));
    assert_eq!(complete(variable_reference, "False"), Some(Node::ident("False", IdentifierKind::Constant)));
    assert_eq!(complete(variable_reference, "nil_"), Some(Node::ident("nil_", IdentifierKind::LocalVariable)));
    assert_eq!(complete(variable_reference, "$true"), Some(Node::ident("$true", IdentifierKind::GlobalVariable)));
}

#[test]
fn other_identifiers() {
    assert_eq!(complete(variable_reference, "@@count"), Some(Node::ident("@@count", IdentifierKind::ClassVariable)));
    assert_eq!(complete(variable_reference, "@name"), Some(Node::ident("@name", IdentifierKind::InstanceVariable)));
    assert!(complete(variable_reference, "9lives").is_none());
    assert_eq!(complete(simple_scoped_constant_reference, "::Foo"), Some(Node::Placeholder));
    assert!(complete(simple_scoped_constant_reference, "::foo").is_none());
    assert_eq!(complete(_scoped_constant_reference, ":: Bar"), Some(Node::Placeholder));
    assert!(complete(simple_scoped_constant_reference, ":: Bar").is_none());
}

#[test]
fn precedence_and_associativity() {
    assert_eq!(
        complete(equality_expression, "1+2*3"),
        Some(bin(num(1), BinaryOpKind::Add, bin(num(2), BinaryOpKind::Multiply, num(3))))
    );
    assert_eq!(
        complete(equality_expression, "2**3**4"),
        Some(bin(num(2), BinaryOpKind::Power, bin(num(3), BinaryOpKind::Power, num(4))))
    );
    assert_eq!(
        complete(equality_expression, "1-2-3"),
        Some(bin(bin(num(1), BinaryOpKind::Subtract, num(2)), BinaryOpKind::Subtract, num(3)))
    );
    assert_eq!(
        complete(equality_expression, "a < b == c | d & e << 1"),
        Some(bin(
            bin(Node::ident("a", IdentifierKind::LocalVariable), BinaryOpKind::LessThan, Node::ident("b", IdentifierKind::LocalVariable)),
            BinaryOpKind::Equal,
            bin(
                Node::ident("c", IdentifierKind::LocalVariable),
                BinaryOpKind::BitOr,
                bin(Node::ident("d", IdentifierKind::LocalVariable), BinaryOpKind::BitAnd, bin(Node::ident("e", IdentifierKind::LocalVariable), BinaryOpKind::ShiftLeft, num(1))),
            ),
        ))
    );
    assert_eq!(
        complete(equality_expression, "(1 + 2) * -3 % ~4"),
        Some(bin(
            bin(bin(num(1), BinaryOpKind::Add, num(2)), BinaryOpKind::Multiply, Node::unary_op(UnaryOpKind::Negative, num(3))),
            BinaryOpKind::Modulus,
            Node::unary_op(UnaryOpKind::BitNot, num(4)),
        ))
    );
    assert_eq!(complete(power_expression, "!true"), Some(Node::logical_not(Node::boolean(true))));
}

#[test]
fn equality_does_not_chain() {
    let cs = chars("1 == 2 == 3");
    let (rest, n) = equality_expression(Input::new(&cs)).unwrap();
    assert_eq!(n, bin(num(1), BinaryOpKind::Equal, num(2)));
    assert_eq!(rest.position(), 6);
}

#[test]
fn line_end_before_operator_stops() {
    let cs = chars("1\n+2");
    let (rest, n) = additive_expression(Input::new(&cs)).unwrap();
    assert_eq!(n, num(1));
    assert_eq!(rest.rest(), chars("\n+2"));
    assert_eq!(complete(additive_expression, "1 +\n 2"), Some(bin(num(1), BinaryOpKind::Add, num(2))));
}

#[test]
fn operators() {
    assert_eq!(taken(operator_method_name, "<=>x"), Some(3));
    assert_eq!(taken(operator_method_name, "[]="), Some(3));
    assert_eq!(taken(operator_method_name, "+@"), Some(2));
    assert_eq!(taken(operator_method_name, "!"), None);
    assert_eq!(taken(assignment_operator, "||="), Some(3));
    assert_eq!(taken(assignment_operator, "+"), None);
    assert_eq!(taken(operator, "**="), Some(3));
    assert_eq!(taken(operator, "!~"), Some(2));
    assert_eq!(taken(operator, "="), Some(1));
    assert_eq!(taken(operator, "&&"), Some(2));
    assert_eq!(taken(operator, "||"), Some(2));
    assert_eq!(taken(operator, "&&="), Some(3));
    assert_eq!(taken(operator, "||="), Some(3));
    assert_eq!(taken(operator, "&"), Some(1));
    assert_eq!(taken(operator, "+="), Some(2));
    assert_eq!(taken(operator, "!="), Some(2));
    assert_eq!(taken(operator, "=="), Some(2));
    assert_eq!(taken(assignment_operator, "*="), None);
    assert_eq!(taken(operator, "*="), Some(1));
}

#[test]
fn update_placeholder_installs_left_operand() {
    let x = num(7);
    assert_eq!(Node::update_placeholder(num(7), None), x);
    let tree = bin(bin(Node::Placeholder, BinaryOpKind::Add, num(1)), BinaryOpKind::Multiply, num(2));
    assert!(tree.has_placeholder());
    let filled = Node::update_placeholder(num(7), Some(tree));
    assert_eq!(filled, bin(bin(num(7), BinaryOpKind::Add, num(1)), BinaryOpKind::Multiply, num(2)));
    assert!(!filled.has_placeholder());
    assert_eq!(Node::try_update_placeholder(num(8), Some(filled)), None);
    let bare = Node::binary_op(num(1), BinaryOpKind::Add, num(2));
    assert_eq!(Node::try_update_placeholder(num(3), Some(bare)), None);
}

#[test]
fn update_placeholder_follows_fixed_edges() {
    let c = Node::conditional(ConditionalKind::ModifyingIf, Node::boolean(true), Node::Placeholder, Node::Nil);
    assert_eq!(
        Node::update_placeholder(num(1), Some(c)),
        Node::conditional(ConditionalKind::ModifyingIf, Node::boolean(true), num(1), Node::Nil)
    );
    let c = Node::conditional(ConditionalKind::If, Node::Placeholder, num(2), Node::Nil);
    assert_eq!(
        Node::update_placeholder(num(1), Some(c)),
        Node::conditional(ConditionalKind::If, num(1), num(2), Node::Nil)
    );
    let t = Node::logical_and(Node::logical_not(Node::Placeholder), Node::Nil);
    assert_eq!(
        Node::try_update_placeholder(Node::Self_, Some(t)),
        Some(Node::logical_and(Node::logical_not(Node::Self_), Node::Nil))
    );
    let t = Node::logical_or(Node::Nil, Node::Placeholder);
    assert!(!t.has_placeholder());
}

#[test]
fn constructors() {
    assert_eq!(Node::empty(), Node::Block(vec![]));
    assert_eq!(Node::array(vec![num(1)]), Node::Array(vec![num(1)]));
    assert_eq!(Node::hash(vec![]), Node::Hash(vec![]));
    assert_eq!(Node::splat(Node::Nil), Node::Splat(Box::new(Node::Nil)));
    assert_eq!(Node::block_arg(Node::Nil), Node::BlockArg(Box::new(Node::Nil)));
    assert_eq!(Node::defined(Node::Nil), Node::Defined(Box::new(Node::Nil)));
    assert_ne!(Node::range(num(1), num(2), true), Node::range(num(1), num(2), false));
    assert_ne!(Node::literal_string("a"), Node::literal_symbol("a"));
}
