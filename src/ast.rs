//! The syntax tree built by the expression parser.
use vstd::prelude::*;
use crate::input::{Input, ParseError, fail_kind};

verus! {

/// A decimal number `mantissa * 10^exponent`, as written in the source.
#[derive(Clone, Copy, Debug, PartialEq, Eq, Structural)]
pub struct Decimal {
    pub mantissa: isize,
    pub exponent: isize,
}

/// The kinds of identifier, told apart by their leading characters.
#[derive(Clone, Copy, Debug, PartialEq, Eq, Structural)]
pub enum IdentifierKind {
    Constant,
    GlobalVariable,
    ClassVariable,
    InstanceVariable,
    LocalVariable,
}

/// The binary operators of the precedence chain.
#[derive(Clone, Copy, Debug, PartialEq, Eq, Structural)]
pub enum BinaryOpKind {
    Compare,
    CaseEqual,
    Equal,
    NotEqual,
    RegexMatch,
    NotRegexMatch,
    GreaterEqual,
    GreaterThan,
    LessEqual,
    LessThan,
    BitOr,
    BitXor,
    BitAnd,
    ShiftLeft,
    ShiftRight,
    Add,
    Subtract,
    Multiply,
    Divide,
    Modulus,
    Power,
}

/// The prefix operators that build a `UnaryOp`.
#[derive(Clone, Copy, Debug, PartialEq, Eq, Structural)]
pub enum UnaryOpKind {
    Negative,
    Positive,
    BitNot,
}

/// The forms of conditional.
#[derive(Clone, Copy, Debug, PartialEq, Eq, Structural)]
pub enum ConditionalKind {
    If,
    Unless,
    Ternary,
    ModifyingIf,
    ModifyingUnless,
}

/// A literal value.
#[derive(Clone, Debug, PartialEq)]
pub enum Literal {
    Boolean(bool),
    Integer(isize),
    Float(Decimal),
    String(String),
    Symbol(String),
}

#[derive(Debug, PartialEq)]
pub struct Identifier {
    pub name: String,
    pub kind: IdentifierKind,
}

#[derive(Debug, PartialEq)]
pub struct BinaryOp {
    pub op: BinaryOpKind,
    pub lhs: Box<Node>,
    pub rhs: Box<Node>,
}

#[derive(Debug, PartialEq)]
pub struct UnaryOp {
    pub op: UnaryOpKind,
    pub rhs: Box<Node>,
}

#[derive(Debug, PartialEq)]
pub struct Conditional {
    pub kind: ConditionalKind,
    pub cond: Box<Node>,
    pub then_branch: Box<Node>,
    pub otherwise: Box<Node>,
}

#[derive(Debug, PartialEq)]
pub struct LogicalAnd {
    pub first: Box<Node>,
    pub second: Box<Node>,
}

#[derive(Debug, PartialEq)]
pub struct LogicalOr {
    pub first: Box<Node>,
    pub second: Box<Node>,
}

#[derive(Debug, PartialEq)]
pub struct LogicalNot {
    pub expr: Box<Node>,
}

#[derive(Debug, PartialEq)]
pub struct Ranged {
    pub from: Box<Node>,
    pub to: Box<Node>,
    pub exclusive: bool,
}

/// A node of the syntax tree. Each child is owned by its parent alone.
#[derive(Debug, PartialEq)]
pub enum Node {
    Conditional(Conditional),
    LogicalAnd(LogicalAnd),
    LogicalOr(LogicalOr),
    LogicalNot(LogicalNot),
    Literal(Literal),
    Identifier(Identifier),
    Interpolated(Vec<Node>),
    BinaryOp(BinaryOp),
    UnaryOp(UnaryOp),
    Block(Vec<Node>),
    BlockArg(Box<Node>),
    Segment(String),
    Comment(String),
    Ranged(Ranged),
    Defined(Box<Node>),
    Splat(Box<Node>),
    Array(Vec<Node>),
    Hash(Vec<Node>),
    Nil,
    Self_,
    EndOfProgram,
    Placeholder,
}

/// The mathematical value of a literal.
pub enum LiteralModel {
    Boolean(bool),
    Integer(int),
    Float(int, int),
    Str(Seq<char>),
    Symbol(Seq<char>),
}

/// The mathematical value of a node: strings as character sequences, lists
/// as sequences.
pub enum NodeModel {
    Conditional(ConditionalKind, Box<NodeModel>, Box<NodeModel>, Box<NodeModel>),
    LogicalAnd(Box<NodeModel>, Box<NodeModel>),
    LogicalOr(Box<NodeModel>, Box<NodeModel>),
    LogicalNot(Box<NodeModel>),
    Literal(LiteralModel),
    Identifier(Seq<char>, IdentifierKind),
    Interpolated(Seq<NodeModel>),
    BinaryOp(BinaryOpKind, Box<NodeModel>, Box<NodeModel>),
    UnaryOp(UnaryOpKind, Box<NodeModel>),
    Block(Seq<NodeModel>),
    BlockArg(Box<NodeModel>),
    Segment(Seq<char>),
    Comment(Seq<char>),
    Ranged(Box<NodeModel>, Box<NodeModel>, bool),
    Defined(Box<NodeModel>),
    Splat(Box<NodeModel>),
    Array(Seq<NodeModel>),
    Hash(Seq<NodeModel>),
    Nil,
    Self_,
    EndOfProgram,
    Placeholder,
}

pub open spec fn literal_view(l: Literal) -> LiteralModel {
    match l {
        Literal::Boolean(b) => LiteralModel::Boolean(b),
        Literal::Integer(v) => LiteralModel::Integer(v as int),
        Literal::Float(d) => LiteralModel::Float(d.mantissa as int, d.exponent as int),
        Literal::String(s) => LiteralModel::Str(s@),
        Literal::Symbol(s) => LiteralModel::Symbol(s@),
    }
}

/// The model of a node.
pub open spec fn node_view(n: Node) -> NodeModel
    decreases n,
{
    match n {
        Node::Conditional(c) => NodeModel::Conditional(
            c.kind,
            Box::new(node_view(*c.cond)),
            Box::new(node_view(*c.then_branch)),
            Box::new(node_view(*c.otherwise)),
        ),
        Node::LogicalAnd(a) => NodeModel::LogicalAnd(
            Box::new(node_view(*a.first)),
            Box::new(node_view(*a.second)),
        ),
        Node::LogicalOr(a) => NodeModel::LogicalOr(
            Box::new(node_view(*a.first)),
            Box::new(node_view(*a.second)),
        ),
        Node::LogicalNot(a) => NodeModel::LogicalNot(Box::new(node_view(*a.expr))),
        Node::Literal(l) => NodeModel::Literal(literal_view(l)),
        Node::Identifier(id) => NodeModel::Identifier(id.name@, id.kind),
        Node::Interpolated(v) => NodeModel::Interpolated(nodes_view(v@)),
        Node::BinaryOp(b) => NodeModel::BinaryOp(
            b.op,
            Box::new(node_view(*b.lhs)),
            Box::new(node_view(*b.rhs)),
        ),
        Node::UnaryOp(u) => NodeModel::UnaryOp(u.op, Box::new(node_view(*u.rhs))),
        Node::Block(v) => NodeModel::Block(nodes_view(v@)),
        Node::BlockArg(b) => NodeModel::BlockArg(Box::new(node_view(*b))),
        Node::Segment(s) => NodeModel::Segment(s@),
        Node::Comment(s) => NodeModel::Comment(s@),
        Node::Ranged(r) => NodeModel::Ranged(
            Box::new(node_view(*r.from)),
            Box::new(node_view(*r.to)),
            r.exclusive,
        ),
        Node::Defined(b) => NodeModel::Defined(Box::new(node_view(*b))),
        Node::Splat(b) => NodeModel::Splat(Box::new(node_view(*b))),
        Node::Array(v) => NodeModel::Array(nodes_view(v@)),
        Node::Hash(v) => NodeModel::Hash(nodes_view(v@)),
        Node::Nil => NodeModel::Nil,
        Node::Self_ => NodeModel::Self_,
        Node::EndOfProgram => NodeModel::EndOfProgram,
        Node::Placeholder => NodeModel::Placeholder,
    }
}

/// The models of a sequence of nodes, element by element.
pub open spec fn nodes_view(v: Seq<Node>) -> Seq<NodeModel>
    decreases v,
{
    if v.len() == 0 {
        Seq::empty()
    } else {
        nodes_view(v.drop_last()).push(node_view(v.last()))
    }
}

impl View for Node {
    type V = NodeModel;

    open spec fn view(&self) -> NodeModel {
        node_view(*self)
    }
}

/// What a node parser that is specified by `m` does on input `i`: on
/// success the model of the node and the new position are those of `m`; it
/// fails, at the input's own position, exactly when `m` is `None`.
pub open spec fn node_outcome(
    i: Input,
    r: Result<(Input, Node), ParseError>,
    m: Option<(int, NodeModel)>,
) -> bool {
    match r {
        Ok((j, n)) => j.wf() && j.src@ == i.src@ && i.pos <= j.pos && m == Some((j.pos as int, n@)),
        Err(e) => m is None && e.pos == i.pos && e.kind == fail_kind(i.src@, i.pos as int),
    }
}

/// Whether the end of the leftmost-operand chain of `n` is a `Placeholder`.
///
/// Each composite node has one fixed leftmost edge: `cond` of a conditional
/// (`then_branch` for the modifying forms), `first` of `LogicalAnd` and
/// `LogicalOr`, `expr` of `LogicalNot`, `lhs` of `BinaryOp`. Every other node
/// ends the chain.
pub open spec fn has_hole(n: NodeModel) -> bool
    decreases n,
{
    match n {
        NodeModel::Conditional(k, c, t, _) => if k is ModifyingIf || k is ModifyingUnless {
            has_hole(*t)
        } else {
            has_hole(*c)
        },
        NodeModel::BinaryOp(_, l, _) => has_hole(*l),
        NodeModel::LogicalAnd(f, _) => has_hole(*f),
        NodeModel::LogicalOr(f, _) => has_hole(*f),
        NodeModel::LogicalNot(e) => has_hole(*e),
        NodeModel::Placeholder => true,
        _ => false,
    }
}

/// `n` with the end of its leftmost-operand chain replaced by `x`.
pub open spec fn fill_hole(n: NodeModel, x: NodeModel) -> NodeModel
    decreases n,
{
    match n {
        NodeModel::Conditional(k, c, t, o) => if k is ModifyingIf || k is ModifyingUnless {
            NodeModel::Conditional(k, c, Box::new(fill_hole(*t, x)), o)
        } else {
            NodeModel::Conditional(k, Box::new(fill_hole(*c, x)), t, o)
        },
        NodeModel::BinaryOp(op, l, r) => NodeModel::BinaryOp(op, Box::new(fill_hole(*l, x)), r),
        NodeModel::LogicalAnd(f, g) => NodeModel::LogicalAnd(Box::new(fill_hole(*f, x)), g),
        NodeModel::LogicalOr(f, g) => NodeModel::LogicalOr(Box::new(fill_hole(*f, x)), g),
        NodeModel::LogicalNot(e) => NodeModel::LogicalNot(Box::new(fill_hole(*e, x))),
        _ => x,
    }
}

/// The result of installing `x` as the leftmost operand of an optional tree.
pub open spec fn placeholder_result(x: NodeModel, ast: Option<NodeModel>) -> NodeModel {
    match ast {
        Some(t) => fill_hole(t, x),
        None => x,
    }
}

/// Installing a node without a hole leaves no hole behind: a tree whose
/// placeholder was filled cannot be filled a second time.
pub proof fn lemma_filled_has_no_hole(n: NodeModel, x: NodeModel)
    requires
        !has_hole(x),
    ensures
        !has_hole(fill_hole(n, x)),
    decreases n,
{
    match n {
        NodeModel::Conditional(k, c, t, _) => if k is ModifyingIf || k is ModifyingUnless {
            lemma_filled_has_no_hole(*t, x);
        } else {
            lemma_filled_has_no_hole(*c, x);
        },
        NodeModel::BinaryOp(_, l, _) => lemma_filled_has_no_hole(*l, x),
        NodeModel::LogicalAnd(f, _) => lemma_filled_has_no_hole(*f, x),
        NodeModel::LogicalOr(f, _) => lemma_filled_has_no_hole(*f, x),
        NodeModel::LogicalNot(e) => lemma_filled_has_no_hole(*e, x),
        _ => {},
    }
}

/// Filling a hole with a placeholder gives the tree back: filling changes
/// nothing but the end of the leftmost-operand chain.
pub proof fn lemma_fill_only_hole(n: NodeModel)
    requires
        has_hole(n),
    ensures
        fill_hole(n, NodeModel::Placeholder) == n,
    decreases n,
{
    match n {
        NodeModel::Conditional(k, c, t, _) => if k is ModifyingIf || k is ModifyingUnless {
            lemma_fill_only_hole(*t);
        } else {
            lemma_fill_only_hole(*c);
        },
        NodeModel::BinaryOp(_, l, _) => lemma_fill_only_hole(*l),
        NodeModel::LogicalAnd(f, _) => lemma_fill_only_hole(*f),
        NodeModel::LogicalOr(f, _) => lemma_fill_only_hole(*f),
        NodeModel::LogicalNot(e) => lemma_fill_only_hole(*e),
        _ => {},
    }
}

/// Backpatching: `update_placeholder(x, None)` is `x`; on a tree with one
/// open placeholder it gives the same tree with `x` in the placeholder's place
/// (putting the placeholder back gives the tree again), and, where `x` has
/// no placeholder of its own, none is left on the chain, so a second
/// `update_placeholder` on the result is refused by its precondition and
/// `try_update_placeholder` returns `None`.
pub proof fn lemma_update_placeholder(x: NodeModel, tree: NodeModel)
    requires
        has_hole(tree),
        !has_hole(x),
    ensures
        placeholder_result(x, None) == x,
        placeholder_result(x, Some(tree)) == fill_hole(tree, x),
        fill_hole(tree, NodeModel::Placeholder) == tree,
        !has_hole(placeholder_result(x, Some(tree))),
{
    lemma_filled_has_no_hole(tree, x);
    lemma_fill_only_hole(tree);
}

/// Replaces the placeholder at the end of `n`'s leftmost-operand chain by `value`.
fn fill(n: Node, value: Node) -> (r: Node)
    ensures
        r@ == fill_hole(n@, value@),
    decreases n,
{
    match n {
        Node::Conditional(c) => {
            let Conditional { kind, cond, then_branch, otherwise } = c;
            if matches!(kind, ConditionalKind::ModifyingIf) || matches!(kind, ConditionalKind::ModifyingUnless) {
                Node::Conditional(Conditional { kind, cond, then_branch: Box::new(fill(*then_branch, value)), otherwise })
            } else {
                Node::Conditional(Conditional { kind, cond: Box::new(fill(*cond, value)), then_branch, otherwise })
            }
        },
        Node::BinaryOp(b) => {
            let BinaryOp { op, lhs, rhs } = b;
            Node::BinaryOp(BinaryOp { op, lhs: Box::new(fill(*lhs, value)), rhs })
        },
        Node::LogicalOr(a) => {
            let LogicalOr { first, second } = a;
            Node::LogicalOr(LogicalOr { first: Box::new(fill(*first, value)), second })
        },
        Node::LogicalAnd(a) => {
            let LogicalAnd { first, second } = a;
            Node::LogicalAnd(LogicalAnd { first: Box::new(fill(*first, value)), second })
        },
        Node::LogicalNot(a) => {
            let LogicalNot { expr } = a;
            Node::LogicalNot(LogicalNot { expr: Box::new(fill(*expr, value)) })
        },
        _ => value,
    }
}

/// Whether the leftmost-operand chain of `n` ends in a placeholder.
fn hole_open(n: &Node) -> (r: bool)
    ensures
        r == has_hole(n@),
    decreases n,
{
    match n {
        Node::Conditional(c) => {
            if matches!(c.kind, ConditionalKind::ModifyingIf) || matches!(c.kind, ConditionalKind::ModifyingUnless) {
                hole_open(&c.then_branch)
            } else {
                hole_open(&c.cond)
            }
        },
        Node::BinaryOp(b) => hole_open(&b.lhs),
        Node::LogicalOr(a) => hole_open(&a.first),
        Node::LogicalAnd(a) => hole_open(&a.first),
        Node::LogicalNot(a) => hole_open(&a.expr),
        Node::Placeholder => true,
        _ => false,
    }
}

impl Node {
    /// An empty block.
    pub fn empty() -> (r: Node)
        ensures
            r@ == NodeModel::Block(Seq::empty()),
    {
        let v: Vec<Node> = Vec::new();
        assert(nodes_view(v@) == Seq::<NodeModel>::empty());
        Node::Block(v)
    }

    /// A boolean literal.
    pub fn boolean(val: bool) -> (r: Node)
        ensures
            r@ == NodeModel::Literal(LiteralModel::Boolean(val)),
    {
        Node::Literal(Literal::Boolean(val))
    }

    /// An integer literal.
    pub fn integer(val: isize) -> (r: Node)
        ensures
            r@ == NodeModel::Literal(LiteralModel::Integer(val as int)),
    {
        Node::Literal(Literal::Integer(val))
    }

    /// A decimal literal.
    pub fn float(val: Decimal) -> (r: Node)
        ensures
            r@ == NodeModel::Literal(LiteralModel::Float(val.mantissa as int, val.exponent as int)),
    {
        Node::Literal(Literal::Float(val))
    }

    /// A string literal.
    pub fn literal_string(val: &str) -> (r: Node)
        ensures
            r@ == NodeModel::Literal(LiteralModel::Str(val@)),
    {
        Node::Literal(Literal::String(val.to_owned()))
    }

    /// A symbol literal.
    pub fn literal_symbol(val: &str) -> (r: Node)
        ensures
            r@ == NodeModel::Literal(LiteralModel::Symbol(val@)),
    {
        Node::Literal(Literal::Symbol(val.to_owned()))
    }

    /// An identifier of the given kind.
    pub fn ident(name: &str, kind: IdentifierKind) -> (r: Node)
        ensures
            r@ == NodeModel::Identifier(name@, kind),
    {
        Node::Identifier(Identifier { name: name.to_owned(), kind })
    }

    /// A prefix operation.
    pub fn unary_op(op: UnaryOpKind, rhs: Node) -> (r: Node)
        ensures
            r@ == NodeModel::UnaryOp(op, Box::new(rhs@)),
    {
        Node::UnaryOp(UnaryOp { op, rhs: Box::new(rhs) })
    }

    /// A binary operation.
    pub fn binary_op(lhs: Node, op: BinaryOpKind, rhs: Node) -> (r: Node)
        ensures
            r@ == NodeModel::BinaryOp(op, Box::new(lhs@), Box::new(rhs@)),
    {
        Node::BinaryOp(BinaryOp { op, lhs: Box::new(lhs), rhs: Box::new(rhs) })
    }

    /// A logical AND.
    pub fn logical_and(first: Node, second: Node) -> (r: Node)
        ensures
            r@ == NodeModel::LogicalAnd(Box::new(first@), Box::new(second@)),
    {
        Node::LogicalAnd(LogicalAnd { first: Box::new(first), second: Box::new(second) })
    }

    /// A logical OR.
    pub fn logical_or(first: Node, second: Node) -> (r: Node)
        ensures
            r@ == NodeModel::LogicalOr(Box::new(first@), Box::new(second@)),
    {
        Node::LogicalOr(LogicalOr { first: Box::new(first), second: Box::new(second) })
    }

    /// A logical NOT.
    pub fn logical_not(expr: Node) -> (r: Node)
        ensures
            r@ == NodeModel::LogicalNot(Box::new(expr@)),
    {
        Node::LogicalNot(LogicalNot { expr: Box::new(expr) })
    }

    /// A `defined?` test.
    pub fn defined(node: Node) -> (r: Node)
        ensures
            r@ == NodeModel::Defined(Box::new(node@)),
    {
        Node::Defined(Box::new(node))
    }

    /// A splat argument.
    pub fn splat(node: Node) -> (r: Node)
        ensures
            r@ == NodeModel::Splat(Box::new(node@)),
    {
        Node::Splat(Box::new(node))
    }

    /// A block argument.
    pub fn block_arg(node: Node) -> (r: Node)
        ensures
            r@ == NodeModel::BlockArg(Box::new(node@)),
    {
        Node::BlockArg(Box::new(node))
    }

    /// An array constructor.
    pub fn array(node: Vec<Node>) -> (r: Node)
        ensures
            r@ == NodeModel::Array(nodes_view(node@)),
    {
        Node::Array(node)
    }

    /// A hash constructor.
    pub fn hash(node: Vec<Node>) -> (r: Node)
        ensures
            r@ == NodeModel::Hash(nodes_view(node@)),
    {
        Node::Hash(node)
    }

    /// A range, exclusive of its end when `exclusive` holds.
    pub fn range(from: Node, to: Node, exclusive: bool) -> (r: Node)
        ensures
            r@ == NodeModel::Ranged(Box::new(from@), Box::new(to@), exclusive),
    {
        Node::Ranged(Ranged { from: Box::new(from), to: Box::new(to), exclusive })
    }

    /// A conditional.
    pub fn conditional(kind: ConditionalKind, cond: Node, then_branch: Node, otherwise: Node) -> (r: Node)
        ensures
            r@ == NodeModel::Conditional(kind, Box::new(cond@), Box::new(then_branch@), Box::new(otherwise@)),
    {
        Node::Conditional(Conditional {
            kind,
            cond: Box::new(cond),
            then_branch: Box::new(then_branch),
            otherwise: Box::new(otherwise),
        })
    }

    /// Installs `value` as the left operand of a tree built with one open
    /// placeholder, or returns `value` itself when there is no tree yet.
    pub fn update_placeholder(value: Node, ast: Option<Node>) -> (r: Node)
        requires
            ast matches Some(t) ==> has_hole(t@),
        ensures
            r@ == placeholder_result(value@, match ast { Some(t) => Some(t@), None => None }),
    {
        match ast {
            Some(t) => fill(t, value),
            None => value,
        }
    }

    /// As `update_placeholder`, but refuses a tree whose leftmost-operand
    /// chain does not end in a placeholder.
    pub fn try_update_placeholder(value: Node, ast: Option<Node>) -> (r: Option<Node>)
        ensures
            (ast matches Some(t) && !has_hole(t@)) <==> r is None,
            r matches Some(n) ==> n@ == placeholder_result(value@, match ast { Some(t) => Some(t@), None => None }),
    {
        match ast {
            Some(t) => if hole_open(&t) {
                Some(Node::update_placeholder(value, Some(t)))
            } else {
                None
            },
            None => Some(value),
        }
    }

    /// Whether this tree has an open placeholder at the end of its
    /// leftmost-operand chain.
    pub fn has_placeholder(&self) -> (r: bool)
        ensures
            r == has_hole(self@),
    {
        hole_open(self)
    }
}

} // verus!
