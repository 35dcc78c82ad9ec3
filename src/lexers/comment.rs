//! Comments: `#` to the end of the line, and `=begin` ... `=end` blocks
//! whose marker lines start at the beginning of a line.
use vstd::prelude::*;
use crate::input::{Input, ParseError, at, bol, fail, string_between};
use crate::token::text_outcome;

verus! {

/// The number of characters from `p` up to the end of the line (the line
/// terminator excluded) or of the input.
pub open spec fn line_len(s: Seq<char>, p: int) -> nat
    decreases s.len() - p,
{
    if 0 <= p < s.len() && s[p] != '\n' {
        1 + line_len(s, p + 1)
    } else {
        0
    }
}

pub proof fn lemma_line_len(s: Seq<char>, p: int)
    requires
        0 <= p <= s.len(),
    ensures
        p + line_len(s, p) <= s.len(),
        p + line_len(s, p) == s.len() || s[p + line_len(s, p)] == '\n',
        forall|k: int| p <= k < p + line_len(s, p) ==> #[trigger] s[k] != '\n',
    decreases s.len() - p,
{
    if p < s.len() && s[p] != '\n' {
        lemma_line_len(s, p + 1);
    }
}

/// A line without a terminator runs to the end of the input.
pub proof fn lemma_line_len_whole(s: Seq<char>, p: int)
    requires
        0 <= p <= s.len(),
        forall|k: int| p <= k < s.len() ==> #[trigger] s[k] != '\n',
    ensures
        p + line_len(s, p) == s.len(),
    decreases s.len() - p,
{
    if p < s.len() {
        lemma_line_len_whole(s, p + 1);
    }
}

/// Two texts follow each other at `p` exactly when their concatenation does.
pub proof fn lemma_at_concat(s: Seq<char>, p: int, a: Seq<char>, b: Seq<char>)
    ensures
        at(s, p, a + b) <==> (at(s, p, a) && at(s, p + a.len(), b)),
{
    if at(s, p, a + b) {
        assert(s.subrange(p, p + a.len()) =~= (a + b).subrange(0, a.len() as int));
        assert(s.subrange(p + a.len(), p + a.len() + b.len()) =~= (a + b).subrange(a.len() as int, (a.len() + b.len()) as int));
        assert((a + b).subrange(0, a.len() as int) =~= a);
        assert((a + b).subrange(a.len() as int, (a.len() + b.len()) as int) =~= b);
    }
    if at(s, p, a) && at(s, p + a.len(), b) {
        assert(s.subrange(p, p + (a + b).len()) =~= s.subrange(p, p + a.len()) + s.subrange(p + a.len(), p + a.len() + b.len()));
    }
}

/// The end of the single-line comment at `p`.
pub open spec fn single_line_comment_spec(s: Seq<char>, p: int) -> Option<int> {
    if at(s, p, seq!['#']) {
        Some(p + 1 + line_len(s, p + 1))
    } else {
        None
    }
}

/// Where the `=end` line of a block comment starts, given that an interior
/// line starts at `q`: interior lines are taken, each up to and including its
/// terminator, until a line that starts with `=end`.
pub open spec fn end_line_start(s: Seq<char>, q: int) -> Option<int>
    decreases s.len() - q,
{
    if !(0 <= q <= s.len()) {
        None
    } else if at(s, q, seq!['=', 'e', 'n', 'd']) {
        Some(q)
    } else if q + line_len(s, q) < s.len() {
        end_line_start(s, q + line_len(s, q) + 1)
    } else {
        None
    }
}

/// The end of the `=begin` line at `p`: the marker at the beginning of a
/// line, the rest of that line, and its terminator.
pub open spec fn begin_line_spec(s: Seq<char>, p: int) -> Option<int> {
    if bol(s, p) && at(s, p, seq!['=', 'b', 'e', 'g', 'i', 'n']) && p + 6 + line_len(s, p + 6) < s.len() {
        Some(p + 6 + line_len(s, p + 6) + 1)
    } else {
        None
    }
}

/// The end of the `=end` line at `c`: the marker at the beginning of a line,
/// the rest of that line, and its terminator unless the input ends there.
pub open spec fn end_line_spec(s: Seq<char>, c: int) -> Option<int> {
    if bol(s, c) && at(s, c, seq!['=', 'e', 'n', 'd']) {
        let d = c + 4 + line_len(s, c + 4);
        Some(if d < s.len() { d + 1 } else { d })
    } else {
        None
    }
}

/// The end of the interior line at `q`: a line that is not an `=end` line,
/// with its terminator.
pub open spec fn interior_line_spec(s: Seq<char>, q: int) -> Option<int> {
    if 0 <= q <= s.len() && !at(s, q, seq!['=', 'e', 'n', 'd']) && q + line_len(s, q) < s.len() {
        Some(q + line_len(s, q) + 1)
    } else {
        None
    }
}

/// The end of the block comment at `p`: the `=begin` line, the interior
/// lines, then the `=end` line.
pub open spec fn multi_line_comment_spec(s: Seq<char>, p: int) -> Option<int> {
    match begin_line_spec(s, p) {
        None => None,
        Some(b) => match end_line_start(s, b) {
            None => None,
            Some(c) => end_line_spec(s, c),
        },
    }
}

/// A single-line comment, else a block comment.
pub open spec fn comment_spec(s: Seq<char>, p: int) -> Option<int> {
    match single_line_comment_spec(s, p) {
        Some(e) => Some(e),
        None => multi_line_comment_spec(s, p),
    }
}

/// The number of characters to the end of the line at `from`.
fn line_count(s: &[char], from: usize) -> (r: usize)
    requires
        from <= s@.len(),
    ensures
        r == line_len(s@, from as int),
        from + r <= s@.len(),
{
    let mut k: usize = from;
    while k < s.len() && s[k] != '\n'
        invariant
            from <= k <= s@.len(),
            (k - from) + line_len(s@, k as int) == line_len(s@, from as int),
        decreases s@.len() - k,
    {
        k = k + 1;
    }
    k - from
}

/// One or more characters up to the end of the line, its terminator excluded.
pub fn line_content(i: Input) -> (r: Result<(Input, String), ParseError>)
    requires
        i.wf(),
    ensures
        text_outcome(i, r, if line_len(i.src@, i.pos as int) > 0 {
            Some(i.pos + line_len(i.src@, i.pos as int))
        } else {
            None
        }),
{
    let n = line_count(i.src, i.pos);
    if n == 0 {
        return Err(fail(i));
    }
    let j = i.advance(n);
    Ok((j, string_between(i.src, i.pos, j.pos)))
}

/// `#` and the rest of the line; the line terminator is left unconsumed.
pub fn single_line_comment(i: Input) -> (r: Result<(Input, String), ParseError>)
    requires
        i.wf(),
    ensures
        text_outcome(i, r, single_line_comment_spec(i.src@, i.pos as int)),
{
    if !i.at1('#') {
        return Err(fail(i));
    }
    let j = match line_content(i.advance(1)) {
        Ok((j, _)) => j,
        Err(_) => i.advance(1),
    };
    Ok((j, string_between(i.src, i.pos, j.pos)))
}

/// What a lexer of one line of a block comment that is specified by `m`
/// (the end position) does.
pub open spec fn line_outcome(i: Input, r: Result<Input, ParseError>, m: Option<int>) -> bool {
    match r {
        Ok(j) => j.wf() && j.src@ == i.src@ && i.pos < j.pos && m == Some(j.pos as int),
        Err(e) => m is None && e.pos == i.pos,
    }
}

/// [ beginning of a line ] `=begin`, the rest of the line, and its terminator.
/// Anywhere but at the beginning of a line this fails.
pub fn multi_line_comment_begin_line(i: Input) -> (r: Result<Input, ParseError>)
    requires
        i.wf(),
    ensures
        line_outcome(i, r, begin_line_spec(i.src@, i.pos as int)),
{
    let ghost s = i.src@;
    proof {
        lemma_at_concat(s, i.pos as int, seq!['=', 'b', 'e'], seq!['g', 'i', 'n']);
        assert(seq!['=', 'b', 'e'] + seq!['g', 'i', 'n'] =~= seq!['=', 'b', 'e', 'g', 'i', 'n']);
    }
    if !i.beginning_of_line() || !(i.at3('=', 'b', 'e') && i.advance(3).at3('g', 'i', 'n')) {
        return Err(fail(i));
    }
    let b = line_count(i.src, i.pos + 6);
    if i.pos + 6 + b >= i.src.len() {
        return Err(fail(i));
    }
    Ok(i.advance(6 + b + 1))
}

/// [ beginning of a line ] `=end`, the rest of the line, and its terminator
/// unless the input ends there.
pub fn multi_line_comment_end_line(i: Input) -> (r: Result<Input, ParseError>)
    requires
        i.wf(),
    ensures
        line_outcome(i, r, end_line_spec(i.src@, i.pos as int)),
{
    if !i.beginning_of_line() || !i.at4('=', 'e', 'n', 'd') {
        return Err(fail(i));
    }
    let n = line_count(i.src, i.pos + 4);
    let mut d = i.pos + 4 + n;
    if d < i.src.len() {
        d = d + 1;
    }
    Ok(i.advance(d - i.pos))
}

/// A line of a block comment that is not its `=end` line, with its terminator.
pub fn multi_line_comment_line(i: Input) -> (r: Result<Input, ParseError>)
    requires
        i.wf(),
    ensures
        line_outcome(i, r, interior_line_spec(i.src@, i.pos as int)),
{
    if i.at4('=', 'e', 'n', 'd') {
        return Err(fail(i));
    }
    let n = line_count(i.src, i.pos);
    if i.pos + n >= i.src.len() {
        return Err(fail(i));
    }
    Ok(i.advance(n + 1))
}

/// `=begin` ... `=end`, with both marker lines at the beginning of a line;
/// anywhere else this fails even where the text is well formed.
pub fn multi_line_comment(i: Input) -> (r: Result<(Input, String), ParseError>)
    requires
        i.wf(),
    ensures
        text_outcome(i, r, multi_line_comment_spec(i.src@, i.pos as int)),
{
    let ghost s = i.src@;
    let b = match multi_line_comment_begin_line(i) {
        Ok(j) => j,
        Err(_) => return Err(fail(i)),
    };
    proof {
        lemma_line_len(s, i.pos + 6);
    }
    let mut q = b;
    while !q.at4('=', 'e', 'n', 'd')
        invariant
            i.wf(),
            s == i.src@,
            q.wf(),
            q.src@ == s,
            i.pos < q.pos,
            bol(s, q.pos as int),
            begin_line_spec(s, i.pos as int) == Some(b.pos as int),
            end_line_start(s, q.pos as int) == end_line_start(s, b.pos as int),
        decreases s.len() - q.pos,
    {
        match multi_line_comment_line(q) {
            Ok(j) => {
                proof {
                    lemma_line_len(s, q.pos as int);
                }
                q = j;
            },
            Err(_) => return Err(fail(i)),
        }
    }
    match multi_line_comment_end_line(q) {
        Ok(j) => Ok((j, string_between(i.src, i.pos, j.pos))),
        Err(_) => Err(fail(i)),
    }
}

/// *single_line_comment* | *multi_line_comment*
pub fn comment(i: Input) -> (r: Result<(Input, String), ParseError>)
    requires
        i.wf(),
    ensures
        text_outcome(i, r, comment_spec(i.src@, i.pos as int)),
{
    if let Ok(x) = single_line_comment(i) {
        return Ok(x);
    }
    multi_line_comment(i)
}

/// Succeeds, consuming nothing, exactly at the end of the input.
pub fn eof(i: Input) -> (r: Result<Input, ParseError>)
    requires
        i.wf(),
    ensures
        match r {
            Ok(j) => i.pos == i.src@.len() && j == i,
            Err(e) => i.pos < i.src@.len() && e.pos == i.pos,
        },
{
    if i.is_empty() {
        Ok(i)
    } else {
        Err(fail(i))
    }
}

/// A `#` comment over a text without a line terminator takes all of it.
pub proof fn lemma_single_line_comment_whole(t: Seq<char>)
    requires
        !t.contains('\n'),
    ensures
        single_line_comment_spec(seq!['#'] + t, 0) == Some(1 + t.len() as int),
        (seq!['#'] + t).subrange(0, 1 + t.len() as int) == seq!['#'] + t,
{
    let s = seq!['#'] + t;
    assert(s.subrange(0, 1) =~= seq!['#']);
    assert forall|k: int| 1 <= k < s.len() implies #[trigger] s[k] != '\n' by {
        assert(s[k] == t[k - 1]);
    }
    lemma_line_len_whole(s, 1);
    assert(s.subrange(0, 1 + t.len() as int) =~= s);
}

/// A block comment whose `=begin` does not start a line is refused, however
/// well formed the rest of it is.
pub proof fn lemma_multi_line_comment_anchored(s: Seq<char>, p: int)
    requires
        0 < p <= s.len(),
        s[p - 1] != '\n',
    ensures
        multi_line_comment_spec(s, p) is None,
{
}

} // verus!
