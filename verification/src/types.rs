//! Tests on the text of a Rust type.

use vstd::prelude::*;
use vstd::string::*;

verus! {

/// Whether `s` begins with the character `c`.
pub open spec fn begins_with(s: Seq<char>, c: char) -> bool {
    s.len() > 0 && s[0] == c
}

/// Whether `s` names a lifetime: it begins with an apostrophe.
pub open spec fn is_lifetime(s: Seq<char>) -> bool {
    begins_with(s, '\'')
}

/// Whether the two texts are the same.
pub fn same_text(a: &str, b: &str) -> (r: bool)
    ensures
        r == (a@ == b@),
{
    let x: String = a.to_owned();
    let y: String = b.to_owned();
    x == y
}

/// Whether `rs_type` is a reference type: it begins with `&`.
pub fn is_reference_type(rs_type: &str) -> (b: bool)
    ensures
        b == begins_with(rs_type@, '&'),
{
    !rs_type.is_empty() && rs_type.get_char(0) == '&'
}

/// Whether `rs_type` is a dereference: it begins with `*`.
pub fn is_dereference_type(rs_type: &str) -> (b: bool)
    ensures
        b == begins_with(rs_type@, '*'),
{
    !rs_type.is_empty() && rs_type.get_char(0) == '*'
}

/// Whether `rs_type` is a lifetime, such as `'a` or `'static`.
pub fn is_lifetime_type(rs_type: &str) -> (b: bool)
    ensures
        b == is_lifetime(rs_type@),
{
    !rs_type.is_empty() && rs_type.get_char(0) == '\''
}

/// Whether `rs_type` is the type `Self` of the implementing type.
pub fn is_self_type(rs_type: &str) -> (b: bool)
    ensures
        b == (rs_type@ == "Self"@),
{
    same_text(rs_type, "Self")
}

} // verus!
