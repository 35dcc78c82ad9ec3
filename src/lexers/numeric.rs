//! Runs of digits and blanks, and the value of a run of digits.
use vstd::prelude::*;
use crate::ast::Decimal;
use crate::input::{Input, ParseError, at, chars_between, fail};
use crate::lexers::identifier::is_digit;
use crate::token::{Token, TokenModel, token_outcome};

verus! {

/// A blank inside a line: space or tab.
pub open spec fn is_blank(c: char) -> bool {
    c == ' ' || c == '\t'
}

/// Whitespace that may also end a line.
pub open spec fn is_space(c: char) -> bool {
    c == ' ' || c == '\t' || c == '\n' || c == '\r'
}

/// The number of blanks from `p` on.
pub open spec fn blank_len(s: Seq<char>, p: int) -> nat
    decreases s.len() - p,
{
    if 0 <= p < s.len() && is_blank(s[p]) {
        1 + blank_len(s, p + 1)
    } else {
        0
    }
}

/// The number of whitespace characters, line ends included, from `p` on.
pub open spec fn space_len(s: Seq<char>, p: int) -> nat
    decreases s.len() - p,
{
    if 0 <= p < s.len() && is_space(s[p]) {
        1 + space_len(s, p + 1)
    } else {
        0
    }
}

/// The number of decimal digits from `p` on.
pub open spec fn digit_len(s: Seq<char>, p: int) -> nat
    decreases s.len() - p,
{
    if 0 <= p < s.len() && is_digit(s[p]) {
        1 + digit_len(s, p + 1)
    } else {
        0
    }
}

pub proof fn lemma_digit_len(s: Seq<char>, p: int)
    requires
        0 <= p <= s.len(),
    ensures
        p + digit_len(s, p) <= s.len(),
        forall|k: int| p <= k < p + digit_len(s, p) ==> is_digit(#[trigger] s[k]),
    decreases s.len() - p,
{
    if p < s.len() && is_digit(s[p]) {
        lemma_digit_len(s, p + 1);
    }
}

/// The value of a sequence of decimal digits.
pub open spec fn digits_value(d: Seq<char>) -> int
    decreases d.len(),
{
    if d.len() == 0 {
        0
    } else {
        digits_value(d.drop_last()) * 10 + (d.last() as int - '0' as int)
    }
}

/// The number of blanks at `from`.
pub fn blank_count(s: &[char], from: usize) -> (r: usize)
    requires
        from <= s@.len(),
    ensures
        r == blank_len(s@, from as int),
        from + r <= s@.len(),
{
    let mut k: usize = from;
    while k < s.len() && (s[k] == ' ' || s[k] == '\t')
        invariant
            from <= k <= s@.len(),
            (k - from) + blank_len(s@, k as int) == blank_len(s@, from as int),
        decreases s@.len() - k,
    {
        k = k + 1;
    }
    k - from
}

/// The number of whitespace characters, line ends included, at `from`.
pub fn space_count(s: &[char], from: usize) -> (r: usize)
    requires
        from <= s@.len(),
    ensures
        r == space_len(s@, from as int),
        from + r <= s@.len(),
{
    let mut k: usize = from;
    while k < s.len() && (s[k] == ' ' || s[k] == '\t' || s[k] == '\n' || s[k] == '\r')
        invariant
            from <= k <= s@.len(),
            (k - from) + space_len(s@, k as int) == space_len(s@, from as int),
        decreases s@.len() - k,
    {
        k = k + 1;
    }
    k - from
}

/// The number of decimal digits at `from`.
pub fn digit_count(s: &[char], from: usize) -> (r: usize)
    requires
        from <= s@.len(),
    ensures
        r == digit_len(s@, from as int),
        from + r <= s@.len(),
{
    let mut k: usize = from;
    while k < s.len() && '0' <= s[k] && s[k] <= '9'
        invariant
            from <= k <= s@.len(),
            (k - from) + digit_len(s@, k as int) == digit_len(s@, from as int),
        decreases s@.len() - k,
    {
        k = k + 1;
    }
    k - from
}

/// The value of the digits of `s` from `a` up to `b`, unless it exceeds
/// `isize::MAX`.
pub fn digits_to_isize(s: &[char], a: usize, b: usize) -> (r: Option<isize>)
    requires
        a <= b <= s@.len(),
        forall|k: int| a <= k < b ==> is_digit(#[trigger] s@[k]),
    ensures
        digits_value(s@.subrange(a as int, b as int)) <= isize::MAX <==> r is Some,
        r matches Some(v) ==> 0 <= v && v as int == digits_value(s@.subrange(a as int, b as int)),
{
    let mut v: isize = 0;
    let mut k: usize = a;
    while k < b
        invariant
            a <= k <= b <= s@.len(),
            forall|j: int| a <= j < b ==> is_digit(#[trigger] s@[j]),
            v as int == digits_value(s@.subrange(a as int, k as int)),
            0 <= v,
        decreases b - k,
    {
        let ghost prev = s@.subrange(a as int, k as int);
        let ghost next = s@.subrange(a as int, k + 1);
        assert(next.drop_last() =~= prev);
        proof {
            lemma_digits_monotone(s@.subrange(a as int, b as int), (k - a) as int);
            lemma_digits_monotone(s@.subrange(a as int, b as int), (k + 1 - a) as int);
        }
        assert(s@.subrange(a as int, b as int).subrange(0, (k - a) as int) =~= prev);
        assert(s@.subrange(a as int, b as int).subrange(0, (k + 1 - a) as int) =~= next);
        let d = (s[k] as u32 - '0' as u32) as isize;
        if v > (isize::MAX - d) / 10 {
            assert(digits_value(next) > isize::MAX) by (nonlinear_arith)
                requires
                    v > (isize::MAX - d) / 10,
                    digits_value(next) == v * 10 + d,
                    0 <= d <= 9;
            return None;
        }
        assert(v * 10 + d <= isize::MAX) by (nonlinear_arith)
            requires
                v <= (isize::MAX - d) / 10,
                0 <= d <= 9,
                0 <= v;
        v = v * 10 + d;
        k = k + 1;
    }
    assert(s@.subrange(a as int, k as int) =~= s@.subrange(a as int, b as int));
    Some(v)
}

/// A prefix of a run of digits has no greater value than the run.
pub proof fn lemma_digits_monotone(d: Seq<char>, n: int)
    requires
        0 <= n <= d.len(),
        forall|k: int| 0 <= k < d.len() ==> is_digit(#[trigger] d[k]),
    ensures
        0 <= digits_value(d.subrange(0, n)) <= digits_value(d),
    decreases d.len() - n,
{
    if n < d.len() {
        lemma_digits_monotone(d, n + 1);
        let q = d.subrange(0, n + 1);
        assert(q.drop_last() =~= d.subrange(0, n));
        assert(q.last() == d[n]);
    } else {
        assert(d.subrange(0, n) =~= d);
        lemma_digits_nonneg(d);
    }
}

pub proof fn lemma_digits_nonneg(d: Seq<char>)
    requires
        forall|k: int| 0 <= k < d.len() ==> is_digit(#[trigger] d[k]),
    ensures
        0 <= digits_value(d),
    decreases d.len(),
{
    if d.len() > 0 {
        lemma_digits_nonneg(d.drop_last());
    }
}

/// The shape of the decimal literal at `p`: whether it is negative, where
/// its digits start and end, the length of its fraction, whether its
/// exponent is negative, the length of the exponent's sign and digits, and
/// where the fraction and the whole literal end.
#[verifier::opaque]
pub open spec fn numeric_layout(s: Seq<char>, p: int) -> (bool, int, int, int, bool, int, int, int, int) {
    let neg = at(s, p, seq!['-']);
    let a = if neg || at(s, p, seq!['+']) { p + 1 } else { p };
    let m1 = a + digit_len(s, a);
    let fl: int = if at(s, m1, seq!['.']) { digit_len(s, m1 + 1) as int } else { 0 };
    let f_end = if fl > 0 { m1 + 1 + fl } else { m1 };
    let (eneg, es, ed) = exponent_layout(s, f_end);
    let end = if ed > 0 { f_end + 1 + es + ed } else { f_end };
    (neg, a, m1, fl, eneg, es, ed, f_end, end)
}

/// The shape of an exponent at `q`: whether it is negative, the length of
/// its sign and the number of its digits (0 where there is no exponent).
pub open spec fn exponent_layout(s: Seq<char>, q: int) -> (bool, int, int) {
    let has_e = at(s, q, seq!['e']) || at(s, q, seq!['E']);
    let eneg = has_e && at(s, q + 1, seq!['-']);
    let es: int = if has_e && (eneg || at(s, q + 1, seq!['+'])) { 1 } else { 0 };
    let ed: int = if has_e { digit_len(s, q + 1 + es) as int } else { 0 };
    (eneg, es, ed)
}

/// Scans the exponent at `q`.
fn scan_exponent(i: Input, q: usize) -> (r: (bool, usize, usize))
    requires
        i.wf(),
        i.pos <= q <= i.src@.len(),
    ensures
        exponent_layout(i.src@, q as int) == (r.0, r.1 as int, r.2 as int),
        r.2 > 0 ==> q + 1 + r.1 + r.2 <= i.src@.len(),
        forall|k: int| q + 1 + r.1 <= k < q + 1 + r.1 + r.2 ==> is_digit(#[trigger] i.src@[k]),
{
    let fi = i.advance(q - i.pos);
    let has_e = fi.at1('e') || fi.at1('E');
    if !has_e {
        return (false, 0, 0);
    }
    let gi = fi.advance(1);
    let eneg = gi.at1('-');
    let es: usize = if eneg || gi.at1('+') { 1 } else { 0 };
    let ed = digit_count(i.src, q + 1 + es);
    proof {
        lemma_digit_len(i.src@, q + 1 + es);
    }
    (eneg, es, ed)
}

/// The value of the decimal literal at `p`, with its end: an optional sign,
/// digits, optionally `.` and more digits, optionally `e` or `E`, a sign and
/// digits. Without a fraction or an exponent it is an integer; else a decimal
/// whose mantissa is all its digits. Values beyond `isize` are refused.
pub open spec fn numeric_spec(s: Seq<char>, p: int) -> Option<(int, TokenModel)> {
    let (neg, a, m1, fl, eneg, es, ed, f_end, end) = numeric_layout(s, p);
    if !(0 <= p <= s.len()) || m1 == a {
        None
    } else if fl == 0 && ed == 0 {
        let v = digits_value(s.subrange(a, m1));
        if v <= isize::MAX {
            Some((m1, TokenModel::Integer(if neg { -v } else { v })))
        } else {
            None
        }
    } else {
        let mant = digits_value(s.subrange(a, m1) + s.subrange(m1 + 1, m1 + 1 + fl));
        let ev = if ed > 0 { digits_value(s.subrange(f_end + 1 + es, end)) } else { 0 };
        let e = (if eneg && ed > 0 { -ev } else { ev }) - fl;
        if mant <= isize::MAX && ev <= isize::MAX && isize::MIN <= e <= isize::MAX {
            Some((end, TokenModel::Float(if neg { -mant } else { mant }, e)))
        } else {
            None
        }
    }
}

/// Scans the shape of the decimal literal at the cursor.
fn scan_numeric(i: Input) -> (r: (bool, usize, usize, usize, bool, usize, usize, usize, usize))
    requires
        i.wf(),
    ensures
        numeric_layout(i.src@, i.pos as int) == (r.0, r.1 as int, r.2 as int, r.3 as int, r.4, r.5 as int, r.6 as int, r.7 as int, r.8 as int),
        i.pos <= r.1 <= r.2 <= r.7 <= r.8 <= i.src@.len(),
        r.3 > 0 ==> r.2 + 1 + r.3 <= i.src@.len(),
        r.3 > 0 ==> r.7 == r.2 + 1 + r.3,
        r.6 > 0 ==> r.8 == r.7 + 1 + r.5 + r.6,
        forall|k: int| r.1 <= k < r.2 ==> is_digit(#[trigger] i.src@[k]),
        forall|k: int| r.2 + 1 <= k < r.2 + 1 + r.3 ==> is_digit(#[trigger] i.src@[k]),
        forall|k: int| r.8 - r.6 <= k < r.8 ==> is_digit(#[trigger] i.src@[k]),
{
    reveal(numeric_layout);
    let ghost s = i.src@;
    let src = i.src;
    let neg = i.at1('-');
    let a: usize = if neg || i.at1('+') { i.pos + 1 } else { i.pos };
    let m1 = a + digit_count(src, a);
    proof {
        lemma_digit_len(s, a as int);
    }
    let mi = i.advance(m1 - i.pos);
    let fl: usize = if mi.at1('.') { digit_count(src, m1 + 1) } else { 0 };
    proof {
        if fl > 0 {
            lemma_digit_len(s, m1 + 1);
        }
    }
    let f_end = if fl > 0 { m1 + 1 + fl } else { m1 };
    let (eneg, es, ed) = scan_exponent(i, f_end);
    let end = if ed > 0 { f_end + 1 + es + ed } else { f_end };
    (neg, a, m1, fl, eneg, es, ed, f_end, end)
}

/// A decimal literal: an integer, or a decimal with a fraction or an exponent.
pub fn numeric_literal(i: Input) -> (r: Result<(Input, Token), ParseError>)
    requires
        i.wf(),
    ensures
        token_outcome(i, r, numeric_spec(i.src@, i.pos as int)),
{
    let ghost s = i.src@;
    let src = i.src;
    let (neg, a, m1, fl, eneg, es, ed, f_end, end) = scan_numeric(i);
    if m1 == a {
        return Err(fail(i));
    }
    if fl == 0 && ed == 0 {
        return match digits_to_isize(src, a, m1) {
            Some(v) => Ok((i.advance(m1 - i.pos), Token::Integer(if neg { -v } else { v }))),
            None => Err(fail(i)),
        };
    }
    let mut digits = chars_between(src, a, m1);
    let mut frac = if fl > 0 { chars_between(src, m1 + 1, m1 + 1 + fl) } else { Vec::new() };
    assert(frac@ =~= s.subrange(m1 + 1, m1 + 1 + fl as int));
    digits.append(&mut frac);
    assert(digits@ =~= s.subrange(a as int, m1 as int) + s.subrange(m1 + 1, m1 + 1 + fl as int));
    assert(digits@.subrange(0, digits@.len() as int) =~= digits@);
    let mant = match digits_to_isize(digits.as_slice(), 0, digits.len()) {
        Some(v) => v,
        None => return Err(fail(i)),
    };
    let ev: isize = if ed > 0 {
        match digits_to_isize(src, f_end + 1 + es, end) {
            Some(v) => v,
            None => return Err(fail(i)),
        }
    } else {
        0
    };
    let e: i128 = (if eneg && ed > 0 { -(ev as i128) } else { ev as i128 }) - (fl as i128);
    if e < isize::MIN as i128 || e > isize::MAX as i128 {
        return Err(fail(i));
    }
    let m = if neg { -mant } else { mant };
    Ok((i.advance(end - i.pos), Token::Float(Decimal { mantissa: m, exponent: e as isize })))
}

} // verus!
