//! Scanning text for delimiters with regard to how deep they are nested in
//! brackets.

use crate::text::{is_space, is_whitespace, Span};
use vstd::prelude::*;

verus! {

/// Whether `c` opens a bracket.
pub open spec fn opens(c: char) -> bool {
    c == '(' || c == '<' || c == '['
}

/// Whether the character at `i` closes a bracket. The `>` of an arrow `->`
/// closes none.
pub open spec fn closes(s: Seq<char>, i: int) -> bool {
    s[i] == ')' || s[i] == ']' || (s[i] == '>' && !(i > 0 && s[i - 1] == '-'))
}

/// How many brackets are open after the first `i` characters of `s`. A
/// closing bracket with none open is passed over.
pub open spec fn depth(s: Seq<char>, i: int) -> nat
    decreases i,
{
    if i <= 0 || i > s.len() {
        0
    } else {
        let d = depth(s, i - 1);
        if opens(s[i - 1]) {
            d + 1
        } else if closes(s, i - 1) && d > 0 {
            (d - 1) as nat
        } else {
            d
        }
    }
}

/// Whether `s` holds the separator `sep` at `i`; with `top`, only outside
/// all brackets.
pub open spec fn sep_at(s: Seq<char>, i: int, sep: char, top: bool) -> bool {
    0 <= i < s.len() && s[i] == sep && (top ==> depth(s, i) == 0)
}

/// The first offset from `from` on at which `sep_at` holds, or `s.len()`.
pub open spec fn next_sep(s: Seq<char>, sep: char, top: bool, from: int) -> int
    decreases s.len() - from,
{
    if from < 0 || from >= s.len() {
        s.len() as int
    } else if sep_at(s, from, sep, top) {
        from
    } else {
        next_sep(s, sep, top, from + 1)
    }
}

/// Whether the word `pat` stands in `s` at `i`. With `whole`, white space or
/// an end of the text lies on both sides of it; with `top`, it stands
/// outside all brackets.
pub open spec fn word_at(s: Seq<char>, i: int, pat: Seq<char>, whole: bool, top: bool) -> bool {
    &&& 0 <= i
    &&& i + pat.len() <= s.len()
    &&& s.subrange(i, i + pat.len()) == pat
    &&& whole ==> (i == 0 || is_space(s[i - 1])) && (i + pat.len() == s.len() || is_space(
        s[i + pat.len()],
    ))
    &&& top ==> depth(s, i) == 0
}

/// The first offset from `from` on at which `word_at` holds, or `s.len()`.
pub open spec fn next_word(s: Seq<char>, pat: Seq<char>, whole: bool, top: bool, from: int) -> int
    decreases s.len() - from,
{
    if from < 0 || from >= s.len() {
        s.len() as int
    } else if word_at(s, from, pat, whole, top) {
        from
    } else {
        next_word(s, pat, whole, top, from + 1)
    }
}

/// The first offset from `j` on, and at least 1, before which no bracket of
/// `s` is open, or `s.len() + 1`. Where `s` begins with an opening bracket,
/// `balance(s, 1) - 1` is where that bracket is closed.
pub open spec fn balance(s: Seq<char>, j: int) -> int
    decreases s.len() + 1 - j,
{
    if j < 1 || j > s.len() {
        (s.len() + 1) as int
    } else if depth(s, j) == 0 {
        j
    } else {
        balance(s, j + 1)
    }
}

/// What `next_sep` finds: the first separator from `from` on.
pub proof fn lemma_next_sep(s: Seq<char>, sep: char, top: bool, from: int)
    requires
        0 <= from <= s.len(),
    ensures
        from <= next_sep(s, sep, top, from) <= s.len(),
        next_sep(s, sep, top, from) < s.len() ==> sep_at(s, next_sep(s, sep, top, from), sep, top),
        forall|i: int| from <= i < next_sep(s, sep, top, from) ==> !sep_at(s, i, sep, top),
    decreases s.len() - from,
{
    if from < s.len() && !sep_at(s, from, sep, top) {
        lemma_next_sep(s, sep, top, from + 1);
    }
}

/// What `balance` finds: the first offset from `j` on before which no
/// bracket is open.
pub proof fn lemma_balance(s: Seq<char>, j: int)
    requires
        1 <= j <= s.len() + 1,
    ensures
        j <= balance(s, j) <= s.len() + 1,
        balance(s, j) <= s.len() ==> depth(s, balance(s, j)) == 0,
        forall|i: int| j <= i < balance(s, j) && i <= s.len() ==> depth(s, i) != 0,
    decreases s.len() + 1 - j,
{
    if j <= s.len() && depth(s, j) != 0 {
        lemma_balance(s, j + 1);
    }
}

/// The pieces into which the separators from `from` on cut `s`.
pub open spec fn pieces_from(s: Seq<char>, sep: char, top: bool, from: int) -> Seq<Seq<char>>
    decreases s.len() - from,
{
    let k = next_sep(s, sep, top, from);
    if from < 0 || from > s.len() {
        Seq::empty()
    } else if k < from || k >= s.len() {
        seq![s.subrange(from, s.len() as int)]
    } else {
        seq![s.subrange(from, k)] + pieces_from(s, sep, top, k + 1)
    }
}

/// The pieces into which the separator `sep` cuts `s`: one more than there
/// are separators. With `top`, separators inside brackets cut nothing.
pub open spec fn pieces(s: Seq<char>, sep: char, top: bool) -> Seq<Seq<char>> {
    pieces_from(s, sep, top, 0)
}

/// The texts that `spans` cover in `s`.
pub open spec fn texts(s: Seq<char>, spans: Seq<Span>) -> Seq<Seq<char>> {
    Seq::new(spans.len(), |i: int| spans[i].of(s))
}

/// The depth after the character at `i`, from the depth `d` before it.
pub(crate) fn step_depth(chars: &Vec<char>, span: Span, i: usize, d: usize) -> (r: usize)
    requires
        span.fits(chars@.len()),
        span.start <= i < span.end,
        d == depth(span.of(chars@), i - span.start),
        d <= i - span.start,
    ensures
        r == depth(span.of(chars@), i - span.start + 1),
        r <= i - span.start + 1,
{
    let c = chars[i];
    if c == '(' || c == '<' || c == '[' {
        d + 1
    } else if d > 0 && (c == ')' || c == ']' || (c == '>' && !(i > span.start && chars[i - 1]
        == '-'))) {
        d - 1
    } else {
        d
    }
}

/// Finds the first separator `sep` in `span`; with `top`, the first outside
/// all brackets that `span` holds. Returns `span.end` where there is none.
pub(crate) fn find_sep(chars: &Vec<char>, span: Span, sep: char, top: bool) -> (r: usize)
    requires
        span.fits(chars@.len()),
    ensures
        span.start <= r <= span.end,
        r - span.start == next_sep(span.of(chars@), sep, top, 0),
        r < span.end ==> sep_at(span.of(chars@), r - span.start, sep, top),
{
    let ghost sub = span.of(chars@);
    let mut i: usize = span.start;
    let mut d: usize = 0;
    while i < span.end
        invariant
            span.fits(chars@.len()),
            sub == span.of(chars@),
            span.start <= i <= span.end,
            d == depth(sub, i - span.start),
            d <= i - span.start,
            next_sep(sub, sep, top, 0) == next_sep(sub, sep, top, i - span.start),
        decreases span.end - i,
    {
        if chars[i] == sep && (!top || d == 0) {
            return i;
        }
        d = step_depth(chars, span, i, d);
        i += 1;
    }
    i
}

/// Whether `pat` stands in `span` at `i`.
pub(crate) fn matches_at(chars: &Vec<char>, span: Span, i: usize, pat: &Vec<char>) -> (b: bool)
    requires
        span.fits(chars@.len()),
        span.start <= i <= span.end,
    ensures
        b == (i - span.start + pat@.len() <= span.of(chars@).len() && span.of(chars@).subrange(
            i - span.start,
            i - span.start + pat@.len(),
        ) == pat@),
{
    let ghost sub = span.of(chars@);
    let ghost at = i - span.start;
    if pat.len() > span.end - i {
        return false;
    }
    let mut k: usize = 0;
    while k < pat.len()
        invariant
            span.fits(chars@.len()),
            sub == span.of(chars@),
            span.start <= i <= span.end,
            at == i - span.start,
            pat@.len() <= span.end - i,
            k <= pat@.len(),
            sub.subrange(at, at + k) == pat@.take(k as int),
        decreases pat@.len() - k,
    {
        if chars[i + k] != pat[k] {
            assert(sub.subrange(at, at + pat@.len())[k as int] != pat@[k as int]);
            return false;
        }
        assert(sub.subrange(at, at + k + 1) =~= sub.subrange(at, at + k).push(sub[at + k]));
        assert(pat@.take(k + 1) =~= pat@.take(k as int).push(pat@[k as int]));
        k += 1;
    }
    assert(pat@.take(k as int) =~= pat@);
    true
}

/// Finds the first place in `span` where the word `pat` stands, as `word_at`
/// says. Returns `span.end` where there is none.
pub(crate) fn find_word(chars: &Vec<char>, span: Span, pat: &Vec<char>, whole: bool, top: bool) -> (r:
    usize)
    requires
        span.fits(chars@.len()),
    ensures
        span.start <= r <= span.end,
        r - span.start == next_word(span.of(chars@), pat@, whole, top, 0),
        r < span.end ==> word_at(span.of(chars@), r - span.start, pat@, whole, top),
{
    let ghost sub = span.of(chars@);
    let mut i: usize = span.start;
    let mut d: usize = 0;
    while i < span.end
        invariant
            span.fits(chars@.len()),
            sub == span.of(chars@),
            span.start <= i <= span.end,
            d == depth(sub, i - span.start),
            d <= i - span.start,
            next_word(sub, pat@, whole, top, 0) == next_word(sub, pat@, whole, top, i - span.start),
        decreases span.end - i,
    {
        if (!top || d == 0) && matches_at(chars, span, i, pat) {
            let after: usize = i + pat.len();
            let left: bool = i == span.start || is_whitespace(chars[i - 1]);
            let right: bool = after == span.end || is_whitespace(chars[after]);
            if !whole || (left && right) {
                return i;
            }
        }
        d = step_depth(chars, span, i, d);
        i += 1;
    }
    i
}

/// Finds where the brackets that `span` opens are all closed again: the
/// offset of the closing bracket, or `None` where some bracket stays open.
pub(crate) fn find_close(chars: &Vec<char>, span: Span) -> (r: Option<usize>)
    requires
        span.fits(chars@.len()),
    ensures
        r is Some <==> balance(span.of(chars@), 1) <= span.of(chars@).len(),
        r is Some ==> span.start <= r->0 < span.end && r->0 - span.start + 1 == balance(
            span.of(chars@),
            1,
        ),
{
    let ghost sub = span.of(chars@);
    let mut i: usize = span.start;
    let mut d: usize = 0;
    while i < span.end
        invariant
            span.fits(chars@.len()),
            sub == span.of(chars@),
            span.start <= i <= span.end,
            d == depth(sub, i - span.start),
            d <= i - span.start,
            balance(sub, 1) == balance(sub, i - span.start + 1),
        decreases span.end - i,
    {
        d = step_depth(chars, span, i, d);
        if d == 0 {
            return Some(i);
        }
        i += 1;
    }
    None
}

/// Cuts `span` at each separator `sep`; with `top`, at each one outside all
/// brackets that `span` holds.
pub(crate) fn split(chars: &Vec<char>, span: Span, sep: char, top: bool) -> (out: Vec<Span>)
    requires
        span.fits(chars@.len()),
    ensures
        texts(chars@, out@) == pieces(span.of(chars@), sep, top),
        out@.len() >= 1,
        forall|k: int|
            0 <= k < out@.len() ==> span.start <= (#[trigger] out@[k]).start && out@[k].start
                <= out@[k].end && out@[k].end <= span.end,
{
    let ghost sub = span.of(chars@);
    let mut out: Vec<Span> = Vec::new();
    let mut begin: usize = span.start;
    let mut i: usize = span.start;
    let mut d: usize = 0;
    while i < span.end
        invariant
            span.fits(chars@.len()),
            sub == span.of(chars@),
            span.start <= begin <= i <= span.end,
            d == depth(sub, i - span.start),
            d <= i - span.start,
            next_sep(sub, sep, top, begin - span.start) == next_sep(sub, sep, top, i - span.start),
            texts(chars@, out@) + pieces_from(sub, sep, top, begin - span.start) == pieces(
                sub,
                sep,
                top,
            ),
            forall|k: int|
                0 <= k < out@.len() ==> span.start <= (#[trigger] out@[k]).start && out@[k].start
                    <= out@[k].end && out@[k].end <= span.end,
        decreases span.end - i,
    {
        if chars[i] == sep && (!top || d == 0) {
            let piece = Span { start: begin, end: i };
            proof {
                let rest = pieces_from(sub, sep, top, i - span.start + 1);
                assert(piece.of(chars@) =~= sub.subrange(begin - span.start, i - span.start));
                assert(texts(chars@, out@.push(piece)) =~= texts(chars@, out@) + seq![
                    piece.of(chars@),
                ]);
                assert(texts(chars@, out@.push(piece)) + rest =~= texts(chars@, out@) + (seq![
                    piece.of(chars@),
                ] + rest));
            }
            out.push(piece);
            begin = i + 1;
        }
        d = step_depth(chars, span, i, d);
        i += 1;
    }
    let piece = Span { start: begin, end: span.end };
    proof {
        assert(piece.of(chars@) =~= sub.subrange(begin - span.start, sub.len() as int));
        assert(texts(chars@, out@.push(piece)) =~= texts(chars@, out@) + seq![piece.of(chars@)]);
    }
    out.push(piece);
    out
}

} // verus!
