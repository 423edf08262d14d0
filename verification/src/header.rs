//! Reading the header of a signature: visibility, qualifiers, name and
//! generic parameters.

use crate::error::{refusal, ErrorKind, ParseError};
use crate::generics::{declared, parse_fn_generic_params, Constraint, GenericConstraintMap};
use crate::scan::{
    balance, depth, find_close, find_sep, find_word, lemma_balance, lemma_next_sep, matches_at,
    next_sep, next_word, sep_at,
};
use crate::text::{cut, to_chars, trim, trim_span, Span};
use vstd::prelude::*;
use vstd::string::*;

verus! {

/// What the header of a signature says, as text.
pub struct HeaderView {
    pub is_public: bool,
    pub is_async: bool,
    pub identifier: Seq<char>,
    pub generics: Seq<Constraint>,
}

/// What the header of a signature says.
#[derive(Clone, Debug, PartialEq, Eq)]
pub struct Header {
    /// Whether the function is public.
    pub is_public: bool,
    /// Whether the function is `async`.
    pub is_async: bool,
    /// The name of the function.
    pub identifier: String,
    /// The generic parameters that the header declares, with their bounds.
    pub generics: GenericConstraintMap,
}

impl View for Header {
    type V = HeaderView;

    open spec fn view(&self) -> HeaderView {
        HeaderView {
            is_public: self.is_public,
            is_async: self.is_async,
            identifier: self.identifier@,
            generics: self.generics@,
        }
    }
}

/// Where the keyword `fn` stands in the header `h`: the first `fn` with
/// white space or an end of the text on both sides; `h.len()` if there is
/// none.
pub open spec fn keyword(h: Seq<char>) -> int {
    next_word(h, "fn"@, true, false, 0)
}

/// What stands before the keyword `fn` in `h`.
pub open spec fn qualifiers(h: Seq<char>) -> Seq<char> {
    h.subrange(0, keyword(h))
}

/// What stands behind the keyword `fn` in `h`: the name and the generic
/// parameters.
pub open spec fn declaration(h: Seq<char>) -> Seq<char> {
    h.subrange(keyword(h) + "fn"@.len(), h.len() as int)
}

/// Whether the word `async` stands among the qualifiers `q`.
pub open spec fn has_async(q: Seq<char>) -> bool {
    next_word(q, "async"@, true, false, 0) < q.len()
}

/// Where the first `<` of `d` stands, or `d.len()`.
pub open spec fn angle(d: Seq<char>) -> int {
    next_sep(d, '<', false, 0)
}

/// `d` from its first `<` on.
pub open spec fn from_angle(d: Seq<char>) -> Seq<char> {
    d.subrange(angle(d), d.len() as int)
}

/// Whether the first `<` of `d`, if it has one, is closed.
pub open spec fn generics_closed(d: Seq<char>) -> bool {
    angle(d) < d.len() ==> balance(from_angle(d), 1) <= from_angle(d).len()
}

/// What stands between the first `<` of `d` and the bracket that closes it.
pub open spec fn generic_list(d: Seq<char>) -> Seq<char> {
    from_angle(d).subrange(1, balance(from_angle(d), 1) - 1)
}

/// The generic parameters that `d` declares: those of its generic list, and
/// none where it has no `<`.
pub open spec fn generics_of(d: Seq<char>) -> Seq<Constraint> {
    if angle(d) < d.len() {
        declared(Seq::empty(), generic_list(d))
    } else {
        Seq::empty()
    }
}

/// The name that `d` declares: what stands before its first `<`, without
/// the white space at its ends.
pub open spec fn identifier_of(d: Seq<char>) -> Seq<char> {
    trim(d.subrange(0, angle(d)))
}

/// Why the header `h` is refused, if it is: it lacks the keyword `fn`, and
/// so names no function; or a `<` behind the keyword is not closed; or else
/// no name stands behind the keyword.
pub open spec fn header_error(h: Seq<char>) -> Option<ErrorKind> {
    if keyword(h) >= h.len() {
        Some(ErrorKind::EmptyIdentifier)
    } else if !generics_closed(declaration(h)) {
        Some(ErrorKind::MalformedGenerics)
    } else if identifier_of(declaration(h)).len() == 0 {
        Some(ErrorKind::EmptyIdentifier)
    } else {
        None
    }
}

/// What the header `h` says. It is public where it begins with `pub`, and
/// `async` where that word stands before `fn`.
pub open spec fn header_of(h: Seq<char>) -> HeaderView {
    HeaderView {
        is_public: "pub"@.is_prefix_of(h),
        is_async: has_async(qualifiers(h)),
        identifier: identifier_of(declaration(h)),
        generics: generics_of(declaration(h)),
    }
}

/// Whether `rs_syntax` begins with the keyword `pub`.
pub fn is_public_visibility(rs_syntax: &str) -> (b: bool)
    ensures
        b == "pub"@.is_prefix_of(rs_syntax@),
{
    let chars = to_chars(rs_syntax);
    let whole = Span { start: 0, end: chars.len() };
    assert(whole.of(chars@) =~= chars@);
    matches_at(&chars, whole, 0, &to_chars("pub"))
}

/// Whether `rs_syntax` holds a `<`, and so a list of generic parameters.
pub fn is_generic_params_exist(rs_syntax: &str) -> (b: bool)
    ensures
        b == rs_syntax@.contains('<'),
{
    let chars = to_chars(rs_syntax);
    let whole = Span { start: 0, end: chars.len() };
    assert(whole.of(chars@) =~= chars@);
    let at = find_sep(&chars, whole, '<', false);
    proof {
        lemma_next_sep(chars@, '<', false, 0);
        if at < chars@.len() {
            assert(chars@[at as int] == '<');
        } else {
            assert forall|i: int| 0 <= i < chars@.len() implies chars@[i] != '<' by {
                assert(!sep_at(chars@, i, '<', false));
            }
        }
    }
    at < chars.len()
}

/// Reads the header of a signature: what stands before the parameter list.
/// The function is public where the header begins with `pub`, and `async`
/// where that word stands before the keyword `fn`. Its name is what stands
/// behind `fn`, up to the first `<`; what stands between that `<` and the
/// bracket that closes it is read as the list of generic parameters.
///
/// A header without the keyword `fn` names no function and is refused for
/// its empty identifier; one whose `<` is not closed is refused for its
/// generics; and one with nothing before the `<` or the end of the header
/// again for its empty identifier.
pub fn parse_fn_header(rs_fn_header: &str) -> (r: Result<Header, ParseError>)
    ensures
        r is Ok <==> header_error(rs_fn_header@) is None,
        r is Ok ==> r->Ok_0@ == header_of(rs_fn_header@) && r->Ok_0.generics.wf(),
        r is Err ==> header_error(rs_fn_header@) == Some(r->Err_0.kind) && r->Err_0 == refusal(
            r->Err_0.kind,
            rs_fn_header@.len(),
        ),
{
    let chars = to_chars(rs_fn_header);
    let n: usize = chars.len();
    let whole = Span { start: 0, end: n };
    assert(whole.of(chars@) =~= chars@);
    let word = to_chars("fn");
    let f = find_word(&chars, whole, &word, true, false);
    if f >= n {
        return Err(ParseError { kind: ErrorKind::EmptyIdentifier, span: whole });
    }
    let before = Span { start: 0, end: f };
    let behind = Span { start: f + word.len(), end: n };
    assert(before.of(chars@) =~= qualifiers(chars@));
    assert(behind.of(chars@) =~= declaration(chars@));
    let ghost d = declaration(chars@);
    let is_public = matches_at(&chars, whole, 0, &to_chars("pub"));
    let is_async = find_word(&chars, before, &to_chars("async"), true, false) < f;
    let lt = find_sep(&chars, behind, '<', false);
    let mut generics = GenericConstraintMap::new();
    if lt < n {
        let open = Span { start: lt, end: n };
        assert(open.of(chars@) =~= from_angle(d));
        match find_close(&chars, open) {
            Some(gt) => {
                proof {
                    assert(from_angle(d)[0] == '<');
                    assert(depth(from_angle(d), 0) == 0);
                    assert(depth(from_angle(d), 1) == 1);
                    lemma_balance(from_angle(d), 2);
                }
                let inside = Span { start: lt + 1, end: gt };
                assert(inside.of(chars@) =~= generic_list(d));
                let list = cut(rs_fn_header, inside);
                parse_fn_generic_params(list.as_str(), &mut generics);
            },
            None => {
                return Err(ParseError { kind: ErrorKind::MalformedGenerics, span: whole });
            },
        }
    }
    let name = Span { start: f + word.len(), end: lt };
    assert(name.of(chars@) =~= d.subrange(0, angle(d)));
    let name = trim_span(&chars, name);
    if name.start == name.end {
        return Err(ParseError { kind: ErrorKind::EmptyIdentifier, span: whole });
    }
    let identifier = cut(rs_fn_header, name);
    Ok(Header { is_public, is_async, identifier, generics })
}

} // verus!
