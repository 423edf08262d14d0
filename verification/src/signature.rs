//! A signature as a whole: reading it and writing it as a TypeScript
//! declaration.

use crate::error::{refusal, ErrorKind, ParseError};
use crate::generics::{
    rendered_generics, transform_generic_params, Constraint, GenericConstraintMap,
};
use crate::header::{header_error, header_of, parse_fn_header};
use crate::output::{parse_fn_output, return_type_of, with_where};
use crate::params::{
    entries_of, malformed, parameter_views, parameters_of, parse_fn_input, render_parameters,
    rendered_parameters, Parameter, ParameterView,
};
use crate::segment::{parse_fn, segmentable, segmented};
use crate::text::cut;
use vstd::prelude::*;
use vstd::string::*;

verus! {

/// A signature, as text.
pub struct SignatureView {
    pub is_public: bool,
    pub is_async: bool,
    pub identifier: Seq<char>,
    pub generics: Seq<Constraint>,
    pub parameters: Seq<ParameterView>,
    pub return_type: Seq<char>,
}

/// The signature of a function.
#[derive(Clone, Debug, PartialEq, Eq)]
pub struct FunctionSignature {
    /// Whether the function is public.
    pub is_public: bool,
    /// Whether the function is `async`.
    pub is_async: bool,
    /// The name of the function.
    pub identifier: String,
    /// The generic parameters with their bounds, from the header and from
    /// the `where` clause.
    pub generics: GenericConstraintMap,
    /// The parameters, in order, without the receiver of a method.
    pub parameters: Vec<Parameter>,
    /// The return type.
    pub return_type: String,
}

impl View for FunctionSignature {
    type V = SignatureView;

    open spec fn view(&self) -> SignatureView {
        SignatureView {
            is_public: self.is_public,
            is_async: self.is_async,
            identifier: self.identifier@,
            generics: self.generics@,
            parameters: parameter_views(self.parameters@),
            return_type: self.return_type@,
        }
    }
}

/// Whether some parameter of `m` has a bound.
pub open spec fn has_bounds(m: Seq<Constraint>) -> bool {
    exists|i: int| 0 <= i < m.len() && (#[trigger] m[i]).bounds.len() > 0
}

/// The generic clause of the declaration: the parameters of `m` between
/// `<` and `>`, or nothing where none of them has a bound.
pub open spec fn generic_clause(m: Seq<Constraint>) -> Seq<char> {
    if has_bounds(m) {
        "<"@ + rendered_generics(m) + ">"@
    } else {
        Seq::empty()
    }
}

/// The keyword that makes a declaration public, or nothing.
pub open spec fn visibility(is_public: bool) -> Seq<char> {
    if is_public {
        "export "@
    } else {
        Seq::empty()
    }
}

/// How the return type is written: inside `Promise<` and `>` for an `async`
/// function, and as it is for any other.
pub open spec fn rendered_return(is_async: bool, return_type: Seq<char>) -> Seq<char> {
    if is_async {
        "Promise<"@ + return_type + ">"@
    } else {
        return_type
    }
}

/// The declaration up to its return type.
pub open spec fn declaration_head(sig: SignatureView) -> Seq<char> {
    visibility(sig.is_public) + "function "@ + sig.identifier + generic_clause(sig.generics)
        + " ("@ + rendered_parameters(sig.parameters) + ") : "@
}

/// The TypeScript declaration of `sig`.
pub open spec fn emitted(sig: SignatureView) -> Seq<char> {
    declaration_head(sig) + rendered_return(sig.is_async, sig.return_type) + ";"@
}

/// Why the signature `s` is refused, if it is. The stages refuse in order:
/// cutting the text, reading the header, reading the parameter list. The
/// span is that of the whole text where it could not be cut, and else that
/// of the part which the refusing stage was given.
pub open spec fn signature_error(s: Seq<char>) -> Option<ParseError> {
    let g = segmented(s);
    if !segmentable(s) {
        Some(refusal(ErrorKind::MalformedSignature, s.len()))
    } else if header_error(g.header.of(s)) is Some {
        Some(ParseError { kind: header_error(g.header.of(s))->0, span: g.header })
    } else if malformed(entries_of(g.params.of(s))) {
        Some(ParseError { kind: ErrorKind::MalformedParameter, span: g.params })
    } else {
        None
    }
}

/// What the signature `s` says.
pub open spec fn signature_of(s: Seq<char>) -> SignatureView {
    let g = segmented(s);
    let h = header_of(g.header.of(s));
    SignatureView {
        is_public: h.is_public,
        is_async: h.is_async,
        identifier: h.identifier,
        generics: with_where(h.generics, g.output.of(s)),
        parameters: parameters_of(g.params.of(s)),
        return_type: return_type_of(g.output.of(s)),
    }
}

/// Reads the signature `rs_fn` of a function: the text of a function
/// definition up to its body. The text is cut into header, parameter list
/// and return type; each part is read in turn, and the first refusal ends
/// the work.
pub fn parse_signature(rs_fn: &str) -> (r: Result<FunctionSignature, ParseError>)
    ensures
        r is Ok <==> signature_error(rs_fn@) is None,
        r is Ok ==> r->Ok_0@ == signature_of(rs_fn@) && r->Ok_0.generics.wf(),
        r is Err ==> signature_error(rs_fn@) == Some(r->Err_0),
{
    let g = match parse_fn(rs_fn) {
        Ok(g) => g,
        Err(e) => {
            return Err(e);
        },
    };
    let header_text = cut(rs_fn, g.header);
    let header = match parse_fn_header(header_text.as_str()) {
        Ok(h) => h,
        Err(e) => {
            return Err(ParseError { kind: e.kind, span: g.header });
        },
    };
    let params_text = cut(rs_fn, g.params);
    let parameters = match parse_fn_input(params_text.as_str()) {
        Ok(p) => p,
        Err(e) => {
            return Err(ParseError { kind: e.kind, span: g.params });
        },
    };
    let output_text = cut(rs_fn, g.output);
    let mut generics = header.generics;
    let return_type = parse_fn_output(output_text.as_str(), &mut generics);
    Ok(
        FunctionSignature {
            is_public: header.is_public,
            is_async: header.is_async,
            identifier: header.identifier,
            generics,
            parameters,
            return_type,
        },
    )
}

/// Whether some parameter of `generics` has a bound.
pub fn any_bounds(generics: &GenericConstraintMap) -> (b: bool)
    ensures
        b == has_bounds(generics@),
{
    let entries = generics.entries();
    let mut i: usize = 0;
    while i < entries.len()
        invariant
            i <= entries@.len(),
            entries@.len() == generics@.len(),
            forall|j: int| 0 <= j < entries@.len() ==> (#[trigger] entries@[j])@ == generics@[j],
            forall|j: int| 0 <= j < i ==> (#[trigger] generics@[j]).bounds.len() == 0,
        decreases entries@.len() - i,
    {
        if entries[i].bounds.len() > 0 {
            assert(generics@[i as int].bounds.len() > 0);
            return true;
        }
        assert(generics@[i as int].bounds.len() == 0);
        i += 1;
    }
    false
}

/// Writes the TypeScript declaration of `sig`: `export ` for a public
/// function; `function ` and the name; the generic parameters between `<`
/// and `>` where one of them has a bound; the parameters between ` (` and
/// `)`; ` : ` and the return type, inside `Promise<` and `>` for an `async`
/// function; and `;`.
pub fn emit(sig: &FunctionSignature) -> (r: String)
    ensures
        r@ == emitted(sig@),
        r@.len() > 0,
        r@.last() == ';',
{
    let mut out = String::new();
    if sig.is_public {
        out.append("export ");
    }
    assert(out@ =~= visibility(sig.is_public));
    out.append("function ");
    out.append(sig.identifier.as_str());
    if any_bounds(&sig.generics) {
        let list = transform_generic_params(&sig.generics);
        out.append("<");
        out.append(list.as_str());
        out.append(">");
    }
    assert(out@ =~= visibility(sig.is_public) + "function "@ + sig@.identifier + generic_clause(
        sig@.generics,
    ));
    let list = render_parameters(&sig.parameters);
    out.append(" (");
    out.append(list.as_str());
    out.append(") : ");
    assert(out@ =~= declaration_head(sig@));
    if sig.is_async {
        out.append("Promise<");
        out.append(sig.return_type.as_str());
        out.append(">");
    } else {
        out.append(sig.return_type.as_str());
    }
    assert(out@ =~= declaration_head(sig@) + rendered_return(sig@.is_async, sig@.return_type));
    out.append(";");
    proof {
        reveal_strlit(";");
    }
    out
}

/// Translates the signature `rs_fn` of a Rust function into a TypeScript
/// declaration: see `parse_signature` and `emit`.
pub fn translate(rs_fn: &str) -> (r: Result<String, ParseError>)
    ensures
        r is Ok <==> signature_error(rs_fn@) is None,
        r is Ok ==> r->Ok_0@ == emitted(signature_of(rs_fn@)),
        r is Ok ==> r->Ok_0@.len() > 0 && r->Ok_0@.last() == ';',
        r is Err ==> signature_error(rs_fn@) == Some(r->Err_0),
{
    match parse_signature(rs_fn) {
        Ok(sig) => Ok(emit(&sig)),
        Err(e) => Err(e),
    }
}

} // verus!
