//! The operator-precedence chain, from equality down to primary expressions.
//!
//! Every left-associative level parses one operand at the next level, then
//! folds zero or more `operator operand` pairs into its left operand, so that
//! no rule ever calls itself at the position it started from. A line end
//! before an operator ends the expression; whitespace after one is skipped.
use vstd::prelude::*;
use crate::ast::{BinaryOpKind, LiteralModel, Node, NodeModel, UnaryOpKind, node_outcome};
use crate::input::{Input, ParseError, at, fail};
use crate::lexers::identifier::is_digit;
use crate::lexers::numeric::{blank_count, blank_len, digit_count, digit_len, digits_to_isize, digits_value, lemma_digit_len, space_count, space_len};
use crate::parsers::variable::{variable_reference, variable_reference_spec};

verus! {

/// The outcome of a parse that consumed `n` characters from `p`, as an end position.
pub open spec fn ended(p: int, m: Option<(nat, NodeModel)>) -> Option<(int, NodeModel)> {
    match m {
        Some((n, x)) => Some((p + n, x)),
        None => None,
    }
}

/// The measure of how much input is left at `p`: it drops at every step
/// forward, and is least past the end.
pub open spec fn unread(s: Seq<char>, p: int) -> int {
    if p > s.len() {
        0
    } else {
        s.len() + 1 - p
    }
}

/// A binary node.
pub open spec fn bin(k: BinaryOpKind, l: NodeModel, r: NodeModel) -> NodeModel {
    NodeModel::BinaryOp(k, Box::new(l), Box::new(r))
}

/// The operator of level `lv` at `q`, with its length. Levels from 0 to 6:
/// equality, relational, bitwise or, bitwise and, shift, additive,
/// multiplicative. Longer operators are tried before their prefixes.
pub open spec fn level_op(s: Seq<char>, q: int, lv: int) -> Option<(nat, BinaryOpKind)> {
    if lv == 0 {
        if at(s, q, seq!['<', '=', '>']) { Some((3, BinaryOpKind::Compare)) }
        else if at(s, q, seq!['=', '=', '=']) { Some((3, BinaryOpKind::CaseEqual)) }
        else if at(s, q, seq!['=', '=']) { Some((2, BinaryOpKind::Equal)) }
        else if at(s, q, seq!['!', '=']) { Some((2, BinaryOpKind::NotEqual)) }
        else if at(s, q, seq!['=', '~']) { Some((2, BinaryOpKind::RegexMatch)) }
        else if at(s, q, seq!['!', '~']) { Some((2, BinaryOpKind::NotRegexMatch)) }
        else { None }
    } else if lv == 1 {
        if at(s, q, seq!['>', '=']) { Some((2, BinaryOpKind::GreaterEqual)) }
        else if at(s, q, seq!['>']) { Some((1, BinaryOpKind::GreaterThan)) }
        else if at(s, q, seq!['<', '=']) { Some((2, BinaryOpKind::LessEqual)) }
        else if at(s, q, seq!['<']) { Some((1, BinaryOpKind::LessThan)) }
        else { None }
    } else if lv == 2 {
        if at(s, q, seq!['|']) { Some((1, BinaryOpKind::BitOr)) }
        else if at(s, q, seq!['^']) { Some((1, BinaryOpKind::BitXor)) }
        else { None }
    } else if lv == 3 {
        if at(s, q, seq!['&']) { Some((1, BinaryOpKind::BitAnd)) }
        else { None }
    } else if lv == 4 {
        if at(s, q, seq!['<', '<']) { Some((2, BinaryOpKind::ShiftLeft)) }
        else if at(s, q, seq!['>', '>']) { Some((2, BinaryOpKind::ShiftRight)) }
        else { None }
    } else if lv == 5 {
        if at(s, q, seq!['+']) { Some((1, BinaryOpKind::Add)) }
        else if at(s, q, seq!['-']) { Some((1, BinaryOpKind::Subtract)) }
        else { None }
    } else if lv == 6 {
        if at(s, q, seq!['*']) { Some((1, BinaryOpKind::Multiply)) }
        else if at(s, q, seq!['/']) { Some((1, BinaryOpKind::Divide)) }
        else if at(s, q, seq!['%']) { Some((1, BinaryOpKind::Modulus)) }
        else { None }
    } else {
        None
    }
}

/// Level `lv` at `p`: one operand, then the folded `operator operand` pairs.
pub open spec fn level_spec(s: Seq<char>, p: int, lv: int) -> Option<(nat, NodeModel)>
    decreases unread(s, p), 30 - 3 * lv,
{
    if !(0 <= p <= s.len() && 0 <= lv <= 6) {
        None
    } else {
        match operand_spec(s, p, lv) {
            None => None,
            Some((n, x)) => {
                let (c, t) = fold_rest(s, p + n, x, lv);
                Some((n + c, t))
            },
        }
    }
}

/// An operand of level `lv`: the next level down; under multiplication, a
/// unary minus expression.
pub open spec fn operand_spec(s: Seq<char>, p: int, lv: int) -> Option<(nat, NodeModel)>
    decreases unread(s, p), 29 - 3 * lv,
{
    if !(0 <= p <= s.len() && 0 <= lv <= 6) {
        None
    } else if lv < 6 {
        level_spec(s, p, lv + 1)
    } else {
        unary_minus_spec(s, p)
    }
}

/// Given the left operand `acc` that ends at `p`, the characters that the
/// following `operator operand` pairs of level `lv` take, and the folded
/// tree. Equality takes at most one pair; the other levels take as many as
/// follow. A pair whose operand does not parse is not taken.
pub open spec fn fold_rest(s: Seq<char>, p: int, acc: NodeModel, lv: int) -> (nat, NodeModel)
    decreases unread(s, p), 1int,
{
    if !(0 <= p <= s.len() && 0 <= lv <= 6) {
        (0, acc)
    } else {
        let b = blank_len(s, p);
        match level_op(s, p + b, lv) {
            None => (0, acc),
            Some((n, k)) => {
                let w = space_len(s, p + b + n);
                match operand_spec(s, p + b + n + w, lv) {
                    None => (0, acc),
                    Some((m, rhs)) => {
                        let c: nat = b + n + w + m;
                        if lv == 0 {
                            (c, bin(k, acc, rhs))
                        } else {
                            let (c2, t2) = fold_rest(s, p + c, bin(k, acc, rhs), lv);
                            (c + c2, t2)
                        }
                    },
                }
            },
        }
    }
}

/// `-` *power_expression* | *power_expression*
pub open spec fn unary_minus_spec(s: Seq<char>, p: int) -> Option<(nat, NodeModel)>
    decreases unread(s, p), 8int,
{
    if !(0 <= p <= s.len()) {
        None
    } else if at(s, p, seq!['-']) {
        match power_spec(s, p + 1) {
            Some((n, x)) => Some((n + 1, NodeModel::UnaryOp(UnaryOpKind::Negative, Box::new(x)))),
            None => None,
        }
    } else {
        power_spec(s, p)
    }
}

/// *unary_expression* ( `**` *power_expression* )?: right-associative.
pub open spec fn power_spec(s: Seq<char>, p: int) -> Option<(nat, NodeModel)>
    decreases unread(s, p), 6int,
{
    if !(0 <= p <= s.len()) {
        None
    } else {
        match unary_spec(s, p) {
            None => None,
            Some((n, x)) => {
                let b = blank_len(s, p + n);
                if at(s, p + n + b, seq!['*', '*']) {
                    let w = space_len(s, p + n + b + 2);
                    match power_spec(s, p + n + b + 2 + w) {
                        Some((m, y)) => Some((n + b + 2 + w + m, bin(BinaryOpKind::Power, x, y))),
                        None => Some((n, x)),
                    }
                } else {
                    Some((n, x))
                }
            },
        }
    }
}

/// `~`, `+` or `!` before a unary expression, or a primary expression.
pub open spec fn unary_spec(s: Seq<char>, p: int) -> Option<(nat, NodeModel)>
    decreases unread(s, p), 4int,
{
    if !(0 <= p <= s.len()) {
        None
    } else if at(s, p, seq!['~']) || at(s, p, seq!['+']) || at(s, p, seq!['!']) {
        match unary_spec(s, p + 1) {
            None => None,
            Some((n, x)) => Some((n + 1, if at(s, p, seq!['~']) {
                NodeModel::UnaryOp(UnaryOpKind::BitNot, Box::new(x))
            } else if at(s, p, seq!['+']) {
                NodeModel::UnaryOp(UnaryOpKind::Positive, Box::new(x))
            } else {
                NodeModel::LogicalNot(Box::new(x))
            })),
        }
    } else {
        primary_spec(s, p)
    }
}

/// A parenthesised expression, a decimal integer, or a variable reference.
pub open spec fn primary_spec(s: Seq<char>, p: int) -> Option<(nat, NodeModel)>
    decreases unread(s, p), 2int,
{
    if !(0 <= p <= s.len()) {
        None
    } else if at(s, p, seq!['(']) {
        let w = space_len(s, p + 1);
        match level_spec(s, p + 1 + w, 0) {
            None => None,
            Some((n, x)) => {
                let w2 = space_len(s, p + 1 + w + n);
                if at(s, p + 1 + w + n + w2, seq![')']) {
                    Some((1 + w + n + w2 + 1, x))
                } else {
                    None
                }
            },
        }
    } else if digit_len(s, p) > 0 {
        let v = digits_value(s.subrange(p, p + digit_len(s, p)));
        if v <= isize::MAX {
            Some((digit_len(s, p), NodeModel::Literal(LiteralModel::Integer(v))))
        } else {
            None
        }
    } else {
        match variable_reference_spec(s, p) {
            Some((e, x)) => Some(((e - p) as nat, x)),
            None => None,
        }
    }
}

/// A line end after an operand, with only blanks between, ends every level
/// of the chain: no operator after it is taken, and the operand is the
/// result so far.
pub proof fn lemma_line_end_stops_fold(s: Seq<char>, p: int, acc: NodeModel, lv: int)
    requires
        0 <= p <= s.len(),
        p + blank_len(s, p) < s.len(),
        s[p + blank_len(s, p)] == '\n',
        0 <= lv <= 6,
    ensures
        fold_rest(s, p, acc, lv) == (0nat, acc),
{
    let q = p + blank_len(s, p);
    assert forall|t: Seq<char>| #[trigger] at(s, q, t) && t.len() > 0 implies t[0] == '\n' by {
        assert(s.subrange(q, q + t.len())[0] == s[q]);
    }
    assert(level_op(s, q, lv) is None);
}

/// The operator of level `lv` at the cursor, with its length.
fn level_operator(q: Input, lv: u8) -> (r: Option<(usize, BinaryOpKind)>)
    requires
        q.wf(),
    ensures
        match r {
            Some((n, k)) => level_op(q.src@, q.pos as int, lv as int) == Some((n as nat, k)),
            None => level_op(q.src@, q.pos as int, lv as int) is None,
        },
{
    if lv == 0 {
        if q.at3('<', '=', '>') { Some((3, BinaryOpKind::Compare)) }
        else if q.at3('=', '=', '=') { Some((3, BinaryOpKind::CaseEqual)) }
        else if q.at2('=', '=') { Some((2, BinaryOpKind::Equal)) }
        else if q.at2('!', '=') { Some((2, BinaryOpKind::NotEqual)) }
        else if q.at2('=', '~') { Some((2, BinaryOpKind::RegexMatch)) }
        else if q.at2('!', '~') { Some((2, BinaryOpKind::NotRegexMatch)) }
        else { None }
    } else if lv == 1 {
        if q.at2('>', '=') { Some((2, BinaryOpKind::GreaterEqual)) }
        else if q.at1('>') { Some((1, BinaryOpKind::GreaterThan)) }
        else if q.at2('<', '=') { Some((2, BinaryOpKind::LessEqual)) }
        else if q.at1('<') { Some((1, BinaryOpKind::LessThan)) }
        else { None }
    } else if lv == 2 {
        if q.at1('|') { Some((1, BinaryOpKind::BitOr)) }
        else if q.at1('^') { Some((1, BinaryOpKind::BitXor)) }
        else { None }
    } else if lv == 3 {
        if q.at1('&') { Some((1, BinaryOpKind::BitAnd)) }
        else { None }
    } else if lv == 4 {
        if q.at2('<', '<') { Some((2, BinaryOpKind::ShiftLeft)) }
        else if q.at2('>', '>') { Some((2, BinaryOpKind::ShiftRight)) }
        else { None }
    } else if lv == 5 {
        if q.at1('+') { Some((1, BinaryOpKind::Add)) }
        else if q.at1('-') { Some((1, BinaryOpKind::Subtract)) }
        else { None }
    } else if lv == 6 {
        if q.at1('*') { Some((1, BinaryOpKind::Multiply)) }
        else if q.at1('/') { Some((1, BinaryOpKind::Divide)) }
        else if q.at1('%') { Some((1, BinaryOpKind::Modulus)) }
        else { None }
    } else {
        None
    }
}

/// Parses level `lv` of the chain: an operand, then a loop that folds each
/// following `operator operand` pair into the tree built so far.
#[verifier::spinoff_prover]
fn level(i: Input, lv: u8) -> (r: Result<(Input, Node), ParseError>)
    requires
        i.wf(),
        lv <= 6,
    ensures
        node_outcome(i, r, ended(i.pos as int, level_spec(i.src@, i.pos as int, lv as int))),
    decreases unread(i.src@, i.pos as int), 30 - 3 * lv,
{
    let ghost s = i.src@;
    let ghost p = i.pos as int;
    let (mut cur, mut acc) = match operand(i, lv) {
        Ok(x) => x,
        Err(_) => return Err(fail(i)),
    };
    let mut done = false;
    while !done
        invariant
            i.wf(),
            lv <= 6,
            s == i.src@,
            p == i.pos,
            cur.wf(),
            cur.src@ == s,
            p <= cur.pos,
            done ==> level_spec(s, p, lv as int) == Some(((cur.pos - p) as nat, acc@)),
            !done ==> level_spec(s, p, lv as int) == Some((
                (cur.pos - p + fold_rest(s, cur.pos as int, acc@, lv as int).0) as nat,
                fold_rest(s, cur.pos as int, acc@, lv as int).1,
            )),
        decreases unread(s, cur.pos as int), if done { 0int } else { 1int },
    {
        let b = blank_count(cur.src, cur.pos);
        let q = cur.advance(b);
        match level_operator(q, lv) {
            None => {
                done = true;
            },
            Some((n, k)) => {
                let w = space_count(cur.src, q.pos + n);
                let o = q.advance(n + w);
                match operand(o, lv) {
                    Ok((e, rhs)) => {
                        acc = Node::binary_op(acc, k, rhs);
                        cur = e;
                        if lv == 0 {
                            done = true;
                        }
                    },
                    Err(_) => {
                        done = true;
                    },
                }
            },
        }
    }
    Ok((cur, acc))
}

/// An operand of level `lv`.
#[verifier::spinoff_prover]
fn operand(i: Input, lv: u8) -> (r: Result<(Input, Node), ParseError>)
    requires
        i.wf(),
        lv <= 6,
    ensures
        node_outcome(i, r, ended(i.pos as int, operand_spec(i.src@, i.pos as int, lv as int))),
    decreases unread(i.src@, i.pos as int), 29 - 3 * lv,
{
    if lv < 6 {
        level(i, lv + 1)
    } else {
        unary_minus_expression(i)
    }
}

/// *relational_expression* ( [ no line terminator here ] ( `<=>` | `===` |
/// `==` | `!=` | `=~` | `!~` ) *relational_expression* )?
pub fn equality_expression(i: Input) -> (r: Result<(Input, Node), ParseError>)
    requires
        i.wf(),
    ensures
        node_outcome(i, r, ended(i.pos as int, level_spec(i.src@, i.pos as int, 0))),
{
    level(i, 0)
}

/// *bitwise_or_expression* ( [ no line terminator here ] ( `>=` | `>` | `<=`
/// | `<` ) *bitwise_or_expression* )*, folded to the left.
pub fn relational_expression(i: Input) -> (r: Result<(Input, Node), ParseError>)
    requires
        i.wf(),
    ensures
        node_outcome(i, r, ended(i.pos as int, level_spec(i.src@, i.pos as int, 1))),
{
    level(i, 1)
}

/// *bitwise_and_expression* ( [ no line terminator here ] ( `|` | `^` )
/// *bitwise_and_expression* )*, folded to the left.
pub fn bitwise_or_expression(i: Input) -> (r: Result<(Input, Node), ParseError>)
    requires
        i.wf(),
    ensures
        node_outcome(i, r, ended(i.pos as int, level_spec(i.src@, i.pos as int, 2))),
{
    level(i, 2)
}

/// *bitwise_shift_expression* ( [ no line terminator here ] `&`
/// *bitwise_shift_expression* )*, folded to the left.
pub fn bitwise_and_expression(i: Input) -> (r: Result<(Input, Node), ParseError>)
    requires
        i.wf(),
    ensures
        node_outcome(i, r, ended(i.pos as int, level_spec(i.src@, i.pos as int, 3))),
{
    level(i, 3)
}

/// *additive_expression* ( [ no line terminator here ] ( `<<` | `>>` )
/// *additive_expression* )*, folded to the left.
pub fn bitwise_shift_expression(i: Input) -> (r: Result<(Input, Node), ParseError>)
    requires
        i.wf(),
    ensures
        node_outcome(i, r, ended(i.pos as int, level_spec(i.src@, i.pos as int, 4))),
{
    level(i, 4)
}

/// *multiplicative_expression* ( [ no line terminator here ] ( `+` | `-` )
/// *multiplicative_expression* )*, folded to the left.
pub fn additive_expression(i: Input) -> (r: Result<(Input, Node), ParseError>)
    requires
        i.wf(),
    ensures
        node_outcome(i, r, ended(i.pos as int, level_spec(i.src@, i.pos as int, 5))),
{
    level(i, 5)
}

/// *unary_minus_expression* ( [ no line terminator here ] ( `*` | `/` | `%` )
/// *unary_minus_expression* )*, folded to the left.
pub fn multiplicative_expression(i: Input) -> (r: Result<(Input, Node), ParseError>)
    requires
        i.wf(),
    ensures
        node_outcome(i, r, ended(i.pos as int, level_spec(i.src@, i.pos as int, 6))),
{
    level(i, 6)
}

/// `-` *power_expression* | *power_expression*
#[verifier::spinoff_prover]
pub fn unary_minus_expression(i: Input) -> (r: Result<(Input, Node), ParseError>)
    requires
        i.wf(),
    ensures
        node_outcome(i, r, ended(i.pos as int, unary_minus_spec(i.src@, i.pos as int))),
    decreases unread(i.src@, i.pos as int), 8int,
{
    if i.at1('-') {
        match power_expression(i.advance(1)) {
            Ok((j, x)) => Ok((j, Node::unary_op(UnaryOpKind::Negative, x))),
            Err(_) => Err(fail(i)),
        }
    } else {
        power_expression(i)
    }
}

/// *unary_expression* ( [ no line terminator here ] `**` *power_expression* )?
#[verifier::spinoff_prover]
pub fn power_expression(i: Input) -> (r: Result<(Input, Node), ParseError>)
    requires
        i.wf(),
    ensures
        node_outcome(i, r, ended(i.pos as int, power_spec(i.src@, i.pos as int))),
    decreases unread(i.src@, i.pos as int), 6int,
{
    let (j, x) = match unary_expression(i) {
        Ok(v) => v,
        Err(_) => return Err(fail(i)),
    };
    let b = blank_count(j.src, j.pos);
    let q = j.advance(b);
    if q.at2('*', '*') {
        let w = space_count(q.src, q.pos + 2);
        let o = q.advance(2 + w);
        match power_expression(o) {
            Ok((e, y)) => Ok((e, Node::binary_op(x, BinaryOpKind::Power, y))),
            Err(_) => Ok((j, x)),
        }
    } else {
        Ok((j, x))
    }
}

/// `~`, `+` or `!` followed by a unary expression, or a primary expression.
#[verifier::spinoff_prover]
pub fn unary_expression(i: Input) -> (r: Result<(Input, Node), ParseError>)
    requires
        i.wf(),
    ensures
        node_outcome(i, r, ended(i.pos as int, unary_spec(i.src@, i.pos as int))),
    decreases unread(i.src@, i.pos as int), 4int,
{
    if i.at1('~') || i.at1('+') || i.at1('!') {
        match unary_expression(i.advance(1)) {
            Ok((j, x)) => {
                let n = if i.at1('~') {
                    Node::unary_op(UnaryOpKind::BitNot, x)
                } else if i.at1('+') {
                    Node::unary_op(UnaryOpKind::Positive, x)
                } else {
                    Node::logical_not(x)
                };
                Ok((j, n))
            },
            Err(_) => Err(fail(i)),
        }
    } else {
        primary_expression(i)
    }
}

/// A parenthesised expression, a decimal integer, or a variable reference.
#[verifier::spinoff_prover]
pub fn primary_expression(i: Input) -> (r: Result<(Input, Node), ParseError>)
    requires
        i.wf(),
    ensures
        node_outcome(i, r, ended(i.pos as int, primary_spec(i.src@, i.pos as int))),
    decreases unread(i.src@, i.pos as int), 2int,
{
    let ghost s = i.src@;
    let ghost p = i.pos as int;
    if i.at1('(') {
        let w = space_count(i.src, i.pos + 1);
        match level(i.advance(1 + w), 0) {
            Ok((j, x)) => {
                let w2 = space_count(j.src, j.pos);
                let k = j.advance(w2);
                if k.at1(')') {
                    Ok((k.advance(1), x))
                } else {
                    Err(fail(i))
                }
            },
            Err(_) => Err(fail(i)),
        }
    } else {
        let d = digit_count(i.src, i.pos);
        if d > 0 {
            proof {
                lemma_digit_len(s, p);
            }
            match digits_to_isize(i.src, i.pos, i.pos + d) {
                Some(v) => Ok((i.advance(d), Node::integer(v))),
                None => Err(fail(i)),
            }
        } else {
            variable_reference(i)
        }
    }
}

} // verus!
