//! Cutting a signature into its header, its parameter list and its return
//! type.

use crate::error::{refusal, ErrorKind, ParseError};
use crate::scan::{
    balance, depth, find_close, find_sep, find_word, lemma_balance, next_sep, next_word, step_depth,
};
use crate::text::{to_chars, trim_span, trimmed, Span};
use vstd::prelude::*;

verus! {

/// The three parts of a signature, each without the white space at its
/// ends, as spans of the signature's text.
#[derive(Clone, Copy, Debug, PartialEq, Eq, Structural)]
pub struct Segments {
    /// What stands before the parameter list: qualifiers, `fn`, the name,
    /// the generic parameters.
    pub header: Span,
    /// What stands between the parentheses of the parameter list.
    pub params: Span,
    /// What stands behind the arrow: the return type and the `where`
    /// clause.
    pub output: Span,
}

/// Where the first `(` of `s` stands, or `s.len()`.
pub open spec fn paren(s: Seq<char>) -> int {
    next_sep(s, '(', false, 0)
}

/// `s` from its first `(` on.
pub open spec fn from_paren(s: Seq<char>) -> Seq<char> {
    s.subrange(paren(s), s.len() as int)
}

/// Where the parameter list of `s` ends: the offset behind the bracket that
/// closes its first `(`.
pub open spec fn after_params(s: Seq<char>) -> int {
    paren(s) + balance(from_paren(s), 1)
}

/// `s` from the end of its parameter list on.
pub open spec fn from_close(s: Seq<char>) -> Seq<char> {
    s.subrange(after_params(s), s.len() as int)
}

/// Where the arrow of `s` stands: the first `->` behind the parameter list
/// and outside all brackets.
pub open spec fn arrow(s: Seq<char>) -> int {
    after_params(s) + next_word(from_close(s), "->"@, false, true, 0)
}

/// Whether `s` can be cut: its first `(` stands outside all brackets, the
/// parameter list that it opens is closed, and an arrow follows outside all
/// brackets.
pub open spec fn segmentable(s: Seq<char>) -> bool {
    &&& paren(s) < s.len()
    &&& depth(s, paren(s)) == 0
    &&& after_params(s) <= s.len()
    &&& arrow(s) < s.len()
}

/// The parts into which `s` is cut: what stands before the first `(`, what
/// stands between it and the bracket that closes it, and what stands behind
/// the arrow.
pub open spec fn segmented(s: Seq<char>) -> Segments {
    Segments {
        header: trimmed(s, Span { start: 0, end: paren(s) as usize }),
        params: trimmed(
            s,
            Span { start: (paren(s) + 1) as usize, end: (after_params(s) - 1) as usize },
        ),
        output: trimmed(
            s,
            Span { start: (arrow(s) + "->"@.len()) as usize, end: s.len() as usize },
        ),
    }
}

/// How many brackets are open before the character at `i` of `span`.
pub(crate) fn depth_at(chars: &Vec<char>, span: Span, i: usize) -> (d: usize)
    requires
        span.fits(chars@.len()),
        span.start <= i <= span.end,
    ensures
        d == depth(span.of(chars@), i - span.start),
{
    let mut k: usize = span.start;
    let mut d: usize = 0;
    while k < i
        invariant
            span.fits(chars@.len()),
            span.start <= k <= i <= span.end,
            d == depth(span.of(chars@), k - span.start),
            d <= k - span.start,
        decreases i - k,
    {
        d = step_depth(chars, span, k, d);
        k += 1;
    }
    d
}

/// Cuts the signature `rs_fn` into header, parameter list and return type
/// with `where` clause. The header ends at the first `(`, which must stand
/// outside all brackets; the parameter list ends where that `(` is closed;
/// the return type begins behind the first `->` that follows outside all
/// brackets. A text that cannot be cut so is refused as a malformed
/// signature.
pub fn parse_fn(rs_fn: &str) -> (r: Result<Segments, ParseError>)
    ensures
        r is Ok <==> segmentable(rs_fn@),
        r is Ok ==> r->Ok_0 == segmented(rs_fn@),
        r is Ok ==> r->Ok_0.header.fits(rs_fn@.len()) && r->Ok_0.params.fits(rs_fn@.len())
            && r->Ok_0.output.fits(rs_fn@.len()),
        r is Ok ==> r->Ok_0.header.end <= r->Ok_0.params.start && r->Ok_0.params.end
            <= r->Ok_0.output.start,
        r is Err ==> r->Err_0 == refusal(ErrorKind::MalformedSignature, rs_fn@.len()),
{
    let chars = to_chars(rs_fn);
    let n: usize = chars.len();
    let whole = Span { start: 0, end: n };
    let refused = ParseError { kind: ErrorKind::MalformedSignature, span: whole };
    assert(whole.of(chars@) =~= chars@);
    let p = find_sep(&chars, whole, '(', false);
    if p >= n {
        return Err(refused);
    }
    if depth_at(&chars, whole, p) != 0 {
        return Err(refused);
    }
    let rest = Span { start: p, end: n };
    assert(depth(rest.of(chars@), 1) == 1) by {
        assert(rest.of(chars@)[0] == '(');
        assert(depth(rest.of(chars@), 0) == 0);
    }
    proof {
        lemma_balance(rest.of(chars@), 2);
    }
    let q = match find_close(&chars, rest) {
        Some(q) => q,
        None => {
            return Err(refused);
        },
    };
    let behind = Span { start: q + 1, end: n };
    let pat = to_chars("->");
    let a = find_word(&chars, behind, &pat, false, true);
    if a >= n {
        return Err(refused);
    }
    let header = trim_span(&chars, Span { start: 0, end: p });
    let params = trim_span(&chars, Span { start: p + 1, end: q });
    let output = trim_span(&chars, Span { start: a + pat.len(), end: n });
    Ok(Segments { header, params, output })
}

} // verus!
