//! Reading what stands behind the arrow of a signature: the return type and
//! the `where` clause.

use crate::generics::{declared, parse_fn_generic_params, Constraint, GenericConstraintMap};
use crate::scan::{find_word, next_word};
use crate::text::{cut, to_chars, trim, trim_span, Span};
use vstd::prelude::*;
use vstd::string::*;

verus! {

/// Where the `where` clause of `o` begins: at the first word `where`
/// outside all brackets; `o.len()` if there is none.
pub open spec fn where_at(o: Seq<char>) -> int {
    next_word(o, "where"@, true, true, 0)
}

/// The return type in `o`: what stands before the `where` clause, without
/// the white space at its ends.
pub open spec fn return_type_of(o: Seq<char>) -> Seq<char> {
    trim(o.subrange(0, where_at(o)))
}

/// The predicates of the `where` clause of `o`: what stands behind the word
/// `where`.
pub open spec fn where_body(o: Seq<char>) -> Seq<char> {
    o.subrange(where_at(o) + "where"@.len(), o.len() as int)
}

/// `m` after the `where` clause of `o` was read, if it has one.
pub open spec fn with_where(m: Seq<Constraint>, o: Seq<char>) -> Seq<Constraint> {
    if where_at(o) < o.len() {
        declared(m, where_body(o))
    } else {
        m
    }
}

/// Reads what stands behind the arrow of a signature. It returns the return
/// type: what stands before the first word `where` outside all brackets, or
/// all of the text where there is none. The predicates behind that word are
/// read into `generic_params_map` as a list of generic parameters is, so
/// that a parameter has the bounds of both places.
pub fn parse_fn_output(rs_fn_output: &str, generic_params_map: &mut GenericConstraintMap) -> (r:
    String)
    requires
        old(generic_params_map).wf(),
    ensures
        r@ == return_type_of(rs_fn_output@),
        final(generic_params_map).wf(),
        final(generic_params_map)@ == with_where(old(generic_params_map)@, rs_fn_output@),
{
    let chars = to_chars(rs_fn_output);
    let n: usize = chars.len();
    let whole = Span { start: 0, end: n };
    assert(whole.of(chars@) =~= chars@);
    let word = to_chars("where");
    let w = find_word(&chars, whole, &word, true, true);
    if w < n {
        let behind = Span { start: w + word.len(), end: n };
        assert(behind.of(chars@) =~= where_body(chars@));
        let body = cut(rs_fn_output, behind);
        parse_fn_generic_params(body.as_str(), generic_params_map);
    }
    let before = Span { start: 0, end: w };
    assert(before.of(chars@) =~= chars@.subrange(0, where_at(chars@)));
    cut(rs_fn_output, trim_span(&chars, before))
}

} // verus!
