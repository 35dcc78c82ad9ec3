//! The tracked input: a cursor over a buffer of characters.
use vstd::prelude::*;

verus! {

/// What kind of construct a parse failed on.
#[derive(Clone, Copy, Debug, PartialEq, Eq, Structural)]
pub enum ErrorKind {
    /// A literal was opened but is not well formed.
    MalformedLiteral,
    /// The next character cannot start what was expected.
    UnexpectedCharacter,
    /// The input ended where more was expected.
    EndOfInput,
    /// The production is not implemented.
    Unimplemented,
}

/// A parse failure: its kind and the position of the input it was given.
#[derive(Clone, Copy, Debug, PartialEq, Eq, Structural)]
pub struct ParseError {
    pub kind: ErrorKind,
    pub pos: usize,
}

/// The kind of a plain grammar failure at `p`.
pub open spec fn fail_kind(s: Seq<char>, p: int) -> ErrorKind {
    if p >= s.len() {
        ErrorKind::EndOfInput
    } else {
        ErrorKind::UnexpectedCharacter
    }
}

/// A plain grammar failure at the cursor.
pub fn fail(i: Input) -> (e: ParseError)
    requires
        i.wf(),
    ensures
        e.pos == i.pos,
        e.kind == fail_kind(i.src@, i.pos as int),
{
    let kind = if i.pos >= i.src.len() {
        ErrorKind::EndOfInput
    } else {
        ErrorKind::UnexpectedCharacter
    };
    ParseError { kind, pos: i.pos }
}

/// A position in a borrowed buffer of source characters.
///
/// Parsing never mutates an `Input`: a parser takes one by value and hands a
/// new one back on success, so a failed alternative leaves its caller's cursor
/// where it was.
#[derive(Clone, Copy, Debug)]
pub struct Input<'a> {
    pub src: &'a [char],
    pub pos: usize,
}

/// Relies on `String`'s `FromIterator<char>`: the string holds the given
/// characters in order.
#[verifier::external_body]
fn string_of(cs: Vec<char>) -> (r: String)
    ensures
        r@ == cs@,
{
    cs.into_iter().collect()
}

/// The characters of `s` from `a` up to `b`, as a vector.
pub fn chars_between(s: &[char], a: usize, b: usize) -> (r: Vec<char>)
    requires
        a <= b <= s@.len(),
    ensures
        r@ == s@.subrange(a as int, b as int),
{
    let mut r: Vec<char> = Vec::new();
    let mut k: usize = a;
    while k < b
        invariant
            a <= k <= b <= s@.len(),
            r@ == s@.subrange(a as int, k as int),
        decreases b - k,
    {
        r.push(s[k]);
        k = k + 1;
        assert(r@ =~= s@.subrange(a as int, k as int));
    }
    r
}

/// The characters of `s` from `a` up to `b`, as a string.
pub fn string_between(s: &[char], a: usize, b: usize) -> (r: String)
    requires
        a <= b <= s@.len(),
    ensures
        r@ == s@.subrange(a as int, b as int),
{
    string_of(chars_between(s, a, b))
}

/// The characters of `v` as a string.
pub fn string_from(v: Vec<char>) -> (r: String)
    ensures
        r@ == v@,
{
    string_of(v)
}

/// Whether `t` occurs in `s` at position `p`.
pub open spec fn at(s: Seq<char>, p: int, t: Seq<char>) -> bool {
    0 <= p && p + t.len() <= s.len() && s.subrange(p, p + t.len()) == t
}

/// Whether position `p` of `s` is at the beginning of a line.
pub open spec fn bol(s: Seq<char>, p: int) -> bool {
    p == 0 || (0 < p <= s.len() && s[p - 1] == '\n')
}

impl<'a> Input<'a> {
    /// The cursor is inside its buffer.
    pub open spec fn wf(&self) -> bool {
        self.pos <= self.src@.len() <= usize::MAX
    }

    /// The source characters.
    pub open spec fn s(&self) -> Seq<char> {
        self.src@
    }

    /// The cursor position.
    pub open spec fn p(&self) -> int {
        self.pos as int
    }

    /// A cursor at the start of `src`.
    pub fn new(src: &'a [char]) -> (r: Input<'a>)
        ensures
            r.wf(),
            r.src@ == src@,
            r.pos == 0,
    {
        let _len = src.len();
        Input { src, pos: 0 }
    }

    /// The number of characters consumed so far.
    pub fn position(&self) -> (r: usize)
        ensures
            r == self.pos,
    {
        self.pos
    }

    /// The number of characters not yet consumed.
    pub fn remaining_len(&self) -> (r: usize)
        requires
            self.wf(),
        ensures
            r == self.src@.len() - self.pos,
    {
        self.src.len() - self.pos
    }

    /// Whether every character has been consumed.
    pub fn is_empty(&self) -> (r: bool)
        requires
            self.wf(),
        ensures
            r == (self.pos == self.src@.len()),
    {
        self.pos == self.src.len()
    }

    /// The characters not yet consumed.
    pub fn rest(&self) -> (r: Vec<char>)
        requires
            self.wf(),
        ensures
            r@ == self.src@.subrange(self.pos as int, self.src@.len() as int),
    {
        let mut r: Vec<char> = Vec::new();
        let mut k: usize = self.pos;
        while k < self.src.len()
            invariant
                self.wf(),
                self.pos <= k <= self.src@.len(),
                r@ == self.src@.subrange(self.pos as int, k as int),
            decreases self.src@.len() - k,
        {
            r.push(self.src[k]);
            k = k + 1;
            assert(r@ == self.src@.subrange(self.pos as int, k as int));
        }
        r
    }

    /// The character `k` places ahead of the cursor, if there is one.
    pub fn peek(&self, k: usize) -> (r: Option<char>)
        requires
            self.wf(),
        ensures
            self.pos + k < self.src@.len() ==> r == Some(self.src@[self.pos + k]),
            self.pos + k >= self.src@.len() ==> r is None,
    {
        if k < self.src.len() - self.pos {
            Some(self.src[self.pos + k])
        } else {
            None
        }
    }

    /// The cursor moved `n` characters on.
    pub fn advance(&self, n: usize) -> (r: Input<'a>)
        requires
            self.wf(),
            self.pos + n <= self.src@.len(),
        ensures
            r.wf(),
            r.src@ == self.src@,
            r.pos == self.pos + n,
    {
        let _len = self.src.len();
        Input { src: self.src, pos: self.pos + n }
    }

    /// Whether `t` follows the cursor.
    pub fn starts_with(&self, t: &[char]) -> (r: bool)
        requires
            self.wf(),
        ensures
            r == at(self.src@, self.pos as int, t@),
    {
        if t.len() > self.src.len() - self.pos {
            return false;
        }
        let mut k: usize = 0;
        while k < t.len()
            invariant
                self.wf(),
                self.src@.len() <= usize::MAX,
                t@.len() <= self.src@.len() - self.pos,
                k <= t@.len(),
                forall|j: int| 0 <= j < k ==> self.src@[self.pos + j] == t@[j],
            decreases t@.len() - k,
        {
            if self.src[self.pos + k] != t[k] {
                assert(self.src@.subrange(self.pos as int, self.pos + t@.len())[k as int] != t@[k as int]);
                return false;
            }
            k = k + 1;
        }
        assert(self.src@.subrange(self.pos as int, self.pos + t@.len()) =~= t@);
        true
    }

    /// Whether the character `a` follows the cursor.
    pub fn at1(&self, a: char) -> (r: bool)
        requires
            self.wf(),
        ensures
            r == at(self.src@, self.pos as int, seq![a]),
    {
        let r = self.peek(0) == Some(a);
        assert(r ==> self.src@.subrange(self.pos as int, self.pos + 1) =~= seq![a]);
        assert(at(self.src@, self.pos as int, seq![a]) ==> self.src@.subrange(self.pos as int, self.pos + 1)[0] == a);
        r
    }

    /// Whether the characters `a`, `b` follow the cursor.
    pub fn at2(&self, a: char, b: char) -> (r: bool)
        requires
            self.wf(),
        ensures
            r == at(self.src@, self.pos as int, seq![a, b]),
    {
        let r = self.peek(0) == Some(a) && self.peek(1) == Some(b);
        let ghost q = self.src@.subrange(self.pos as int, self.pos + 2);
        assert(r ==> q =~= seq![a, b]);
        assert(at(self.src@, self.pos as int, seq![a, b]) ==> q[0] == a && q[1] == b);
        r
    }

    /// Whether the characters `a`, `b`, `c` follow the cursor.
    pub fn at3(&self, a: char, b: char, c: char) -> (r: bool)
        requires
            self.wf(),
        ensures
            r == at(self.src@, self.pos as int, seq![a, b, c]),
    {
        let r = self.peek(0) == Some(a) && self.peek(1) == Some(b) && self.peek(2) == Some(c);
        let ghost q = self.src@.subrange(self.pos as int, self.pos + 3);
        assert(r ==> q =~= seq![a, b, c]);
        assert(at(self.src@, self.pos as int, seq![a, b, c]) ==> q[0] == a && q[1] == b && q[2] == c);
        r
    }

    /// Whether the characters `a`, `b`, `c`, `d` follow the cursor.
    pub fn at4(&self, a: char, b: char, c: char, d: char) -> (r: bool)
        requires
            self.wf(),
        ensures
            r == at(self.src@, self.pos as int, seq![a, b, c, d]),
    {
        let r = self.peek(0) == Some(a) && self.peek(1) == Some(b) && self.peek(2) == Some(c)
            && self.peek(3) == Some(d);
        let ghost q = self.src@.subrange(self.pos as int, self.pos + 4);
        assert(r ==> q =~= seq![a, b, c, d]);
        assert(at(self.src@, self.pos as int, seq![a, b, c, d]) ==> q[0] == a && q[1] == b && q[2]
            == c && q[3] == d);
        r
    }

    /// Whether the characters `a`, `b`, `c`, `d`, `e` follow the cursor.
    pub fn at5(&self, a: char, b: char, c: char, d: char, e: char) -> (r: bool)
        requires
            self.wf(),
        ensures
            r == at(self.src@, self.pos as int, seq![a, b, c, d, e]),
    {
        let r = self.peek(0) == Some(a) && self.peek(1) == Some(b) && self.peek(2) == Some(c)
            && self.peek(3) == Some(d) && self.peek(4) == Some(e);
        let ghost q = self.src@.subrange(self.pos as int, self.pos + 5);
        assert(r ==> q =~= seq![a, b, c, d, e]);
        assert(at(self.src@, self.pos as int, seq![a, b, c, d, e]) ==> q[0] == a && q[1] == b && q[2]
            == c && q[3] == d && q[4] == e);
        r
    }

    /// Whether the cursor stands at the beginning of a line: nothing has been
    /// consumed yet, or the last character consumed ends a line.
    pub fn beginning_of_line(&self) -> (r: bool)
        requires
            self.wf(),
        ensures
            r == bol(self.src@, self.pos as int),
    {
        self.pos == 0 || self.src[self.pos - 1] == '\n'
    }
}

} // verus!
