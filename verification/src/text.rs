//! Characters, white space and spans of text.

use vstd::prelude::*;
use vstd::string::*;

verus! {

/// Whether `c` is a white-space character (the Unicode property `White_Space`).
pub open spec fn is_space(c: char) -> bool {
    let u = c as u32;
    u == 0x20 || (0x09 <= u && u <= 0x0d) || u == 0x85 || u == 0xa0 || u == 0x1680 || (0x2000 <= u
        && u <= 0x200a) || u == 0x2028 || u == 0x2029 || u == 0x202f || u == 0x205f || u == 0x3000
}

/// Tests whether `c` is a white-space character.
pub fn is_whitespace(c: char) -> (b: bool)
    ensures
        b == is_space(c),
{
    let u: u32 = c as u32;
    u == 0x20 || (0x09 <= u && u <= 0x0d) || u == 0x85 || u == 0xa0 || u == 0x1680 || (0x2000 <= u
        && u <= 0x200a) || u == 0x2028 || u == 0x2029 || u == 0x202f || u == 0x205f || u == 0x3000
}

/// The characters of `text`, in order.
pub fn to_chars(text: &str) -> (chars: Vec<char>)
    ensures
        chars@ == text@,
{
    let mut chars: Vec<char> = Vec::new();
    for c in it: text.chars()
        invariant
            it.seq() == text@,
            chars@ == it.seq().take(it.index()),
    {
        chars.push(c);
    }
    assert(chars@ == text@);
    chars
}

/// A range of character offsets into a text: from `start` up to, and not
/// including, `end`.
#[derive(Clone, Copy, Debug, PartialEq, Eq, Structural)]
pub struct Span {
    pub start: usize,
    pub end: usize,
}

impl Span {
    /// Whether the span lies inside a text of `len` characters.
    pub open spec fn fits(self, len: nat) -> bool {
        self.start <= self.end <= len
    }

    /// The characters of `s` that the span covers.
    pub open spec fn of(self, s: Seq<char>) -> Seq<char> {
        s.subrange(self.start as int, self.end as int)
    }

    /// The text that the span covers in `source`, or `None` where the span
    /// does not lie inside `source`.
    pub fn slice(&self, source: &str) -> (r: Option<String>)
        ensures
            r is Some <==> self.fits(source@.len()),
            r is Some ==> r->0@ == self.of(source@),
    {
        let n: usize = source.unicode_len();
        if self.start <= self.end && self.end <= n {
            Some(source.substring_char(self.start, self.end).to_owned())
        } else {
            None
        }
    }
}

/// The text that `span` covers in `text`.
pub(crate) fn cut(text: &str, span: Span) -> (r: String)
    requires
        span.fits(text@.len()),
    ensures
        r@ == span.of(text@),
{
    text.substring_char(span.start, span.end).to_owned()
}

/// The views of the strings of `v`, in order.
pub open spec fn views(v: Seq<String>) -> Seq<Seq<char>> {
    Seq::new(v.len(), |i: int| v[i]@)
}

/// Puts a copy of `s` at the end of `v`.
pub fn push_text(v: &mut Vec<String>, s: &str)
    ensures
        views(final(v)@) == views(old(v)@).push(s@),
{
    v.push(s.to_owned());
    assert(views(v@) =~= views(old(v)@).push(s@));
}

/// The texts of `parts` in a row, with `sep` between each two.
pub open spec fn join(parts: Seq<Seq<char>>, sep: Seq<char>) -> Seq<char>
    decreases parts.len(),
{
    if parts.len() == 0 {
        Seq::empty()
    } else if parts.len() == 1 {
        parts[0]
    } else {
        join(parts.drop_last(), sep) + sep + parts.last()
    }
}

/// Joins the strings of `parts`, with `sep` between each two.
pub fn join_strings(parts: &Vec<String>, sep: &str) -> (r: String)
    ensures
        r@ == join(views(parts@), sep@),
{
    let mut out = String::new();
    let mut i: usize = 0;
    while i < parts.len()
        invariant
            i <= parts@.len(),
            out@ == join(views(parts@).take(i as int), sep@),
        decreases parts@.len() - i,
    {
        proof {
            let next = views(parts@).take(i + 1);
            assert(next.drop_last() =~= views(parts@).take(i as int));
            assert(next.last() == parts@[i as int]@);
        }
        if i > 0 {
            out.append(sep);
        }
        out.append(parts[i].as_str());
        i += 1;
    }
    assert(views(parts@).take(i as int) =~= views(parts@));
    out
}

/// The first offset from `i` on at which `s` holds no white space.
pub open spec fn leading(s: Seq<char>, i: int) -> int
    decreases s.len() - i,
{
    if 0 <= i < s.len() && is_space(s[i]) {
        leading(s, i + 1)
    } else {
        i
    }
}

/// The offset after the last character of `s` before `j` that is no white
/// space, and at least `lo`.
pub open spec fn trailing(s: Seq<char>, lo: int, j: int) -> int
    decreases j - lo,
{
    if 0 <= lo < j <= s.len() && is_space(s[j - 1]) {
        trailing(s, lo, j - 1)
    } else {
        j
    }
}

/// `s` without the white space at its two ends.
pub open spec fn trim(s: Seq<char>) -> Seq<char> {
    let a = leading(s, 0);
    s.subrange(a, trailing(s, a, s.len() as int))
}

/// Where in `s` the text lies that `trim` keeps of `span`.
pub open spec fn trimmed(s: Seq<char>, span: Span) -> Span {
    let sub = span.of(s);
    let a = leading(sub, 0);
    Span {
        start: (span.start + a) as usize,
        end: (span.start + trailing(sub, a, sub.len() as int)) as usize,
    }
}

/// Narrows `span` to what `trim` keeps of the characters that it covers.
pub(crate) fn trim_span(chars: &Vec<char>, span: Span) -> (r: Span)
    requires
        span.fits(chars@.len()),
    ensures
        r.fits(chars@.len()),
        span.start <= r.start,
        r.end <= span.end,
        r == trimmed(chars@, span),
        r.of(chars@) == trim(span.of(chars@)),
{
    let ghost sub = span.of(chars@);
    let mut a: usize = span.start;
    while a < span.end && is_whitespace(chars[a])
        invariant
            span.fits(chars@.len()),
            sub == span.of(chars@),
            span.start <= a <= span.end,
            leading(sub, 0) == leading(sub, a - span.start),
        decreases span.end - a,
    {
        a += 1;
    }
    let mut b: usize = span.end;
    while a < b && is_whitespace(chars[b - 1])
        invariant
            span.fits(chars@.len()),
            sub == span.of(chars@),
            span.start <= a <= b <= span.end,
            a - span.start == leading(sub, 0),
            trailing(sub, a - span.start, sub.len() as int) == trailing(
                sub,
                a - span.start,
                b - span.start,
            ),
        decreases b,
    {
        b -= 1;
    }
    let r = Span { start: a, end: b };
    assert(r.of(chars@) =~= trim(sub));
    r
}

} // verus!
