//! Reading the parameter list of a signature, and writing it in
//! TypeScript.

use crate::error::{refusal, ErrorKind, ParseError};
use crate::scan::{find_sep, next_sep, pieces, split, texts};
use crate::text::{
    cut, is_space, is_whitespace, join, join_strings, push_text, to_chars, trim, trim_span, views,
    Span,
};
use crate::types::same_text;
use vstd::prelude::*;
use vstd::string::*;

verus! {

/// A parameter, as text.
pub struct ParameterView {
    pub name: Seq<char>,
    pub ty: Seq<char>,
}

/// A parameter of a function: its name, without attributes and `mut`, and
/// its type.
#[derive(Clone, Debug, PartialEq, Eq)]
pub struct Parameter {
    pub name: String,
    pub ty: String,
}

impl View for Parameter {
    type V = ParameterView;

    open spec fn view(&self) -> ParameterView {
        ParameterView { name: self.name@, ty: self.ty@ }
    }
}

/// The parameters of `v`, as text.
pub open spec fn parameter_views(v: Seq<Parameter>) -> Seq<ParameterView> {
    Seq::new(v.len(), |i: int| v[i]@)
}

/// Whether `e` is the receiver of a method: `self`, `&self` or `&mut self`.
pub open spec fn is_receiver(e: Seq<char>) -> bool {
    e == "self"@ || e == "&self"@ || e == "&mut self"@
}

/// Whether `c` can stand in the last word of what names a parameter: it is
/// no white space and does not close an attribute.
pub open spec fn is_name_char(c: char) -> bool {
    !is_space(c) && c != ']'
}

/// Where the run of name characters begins that ends before `j` in `t`.
pub open spec fn word_start(t: Seq<char>, j: int) -> int
    decreases j,
{
    if 0 < j <= t.len() && is_name_char(t[j - 1]) {
        word_start(t, j - 1)
    } else {
        j
    }
}

/// The name in `part`, which is what stands before the colon of a
/// parameter: its last word, behind any attributes and `mut`.
pub open spec fn bare_name(part: Seq<char>) -> Seq<char> {
    let t = trim(part);
    t.subrange(word_start(t, t.len() as int), t.len() as int)
}

/// The name of a parameter holds no white space and no `]`: no attribute
/// and no qualifier is left in it.
pub proof fn lemma_bare_name(part: Seq<char>)
    ensures
        forall|i: int| 0 <= i < bare_name(part).len() ==> is_name_char(bare_name(part)[i]),
{
    let t = trim(part);
    lemma_word_start(t, t.len() as int);
}

/// What `word_start` finds: all characters from it up to `j` are name
/// characters.
pub proof fn lemma_word_start(t: Seq<char>, j: int)
    requires
        0 <= j <= t.len(),
    ensures
        0 <= word_start(t, j) <= j,
        forall|i: int| word_start(t, j) <= i < j ==> is_name_char(t[i]),
    decreases j,
{
    if 0 < j && is_name_char(t[j - 1]) {
        lemma_word_start(t, j - 1);
    }
}

/// Where the colon of the entry `e` stands: its first `:` outside all
/// brackets, or `e.len()`.
pub open spec fn colon(e: Seq<char>) -> int {
    next_sep(e, ':', true, 0)
}

/// The parameter that the entry `e` declares: the name before its colon
/// and the type behind it.
pub open spec fn parameter_of(e: Seq<char>) -> ParameterView {
    ParameterView {
        name: bare_name(e.subrange(0, colon(e))),
        ty: trim(e.subrange(colon(e) + 1, e.len() as int)),
    }
}

/// The entries of the parameter list `list`: what the commas outside all
/// brackets cut it into.
pub open spec fn entries_of(list: Seq<char>) -> Seq<Seq<char>> {
    pieces(list, ',', true)
}

/// Whether the entry `i` of `raws` declares no parameter: it is empty, or
/// it is the first one and a receiver.
pub open spec fn skipped(raws: Seq<Seq<char>>, i: int) -> bool {
    trim(raws[i]).len() == 0 || (i == 0 && is_receiver(trim(raws[i])))
}

/// Whether the entry `i` of `raws` should declare a parameter and has no
/// colon outside all brackets.
pub open spec fn lacks_colon(raws: Seq<Seq<char>>, i: int) -> bool {
    !skipped(raws, i) && colon(trim(raws[i])) >= trim(raws[i]).len()
}

/// Whether some entry of `raws` lacks its colon.
pub open spec fn malformed(raws: Seq<Seq<char>>) -> bool {
    exists|i: int| 0 <= i < raws.len() && lacks_colon(raws, i)
}

/// The parameters that the first `n` entries of `raws` declare.
pub open spec fn parameters_upto(raws: Seq<Seq<char>>, n: int) -> Seq<ParameterView>
    decreases n,
{
    if n <= 0 {
        Seq::empty()
    } else if skipped(raws, n - 1) {
        parameters_upto(raws, n - 1)
    } else {
        parameters_upto(raws, n - 1).push(parameter_of(trim(raws[n - 1])))
    }
}

/// How many of the first `n` entries of `raws` are neither empty nor a
/// receiver.
pub open spec fn counted(raws: Seq<Seq<char>>, n: int) -> nat
    decreases n,
{
    if n <= 0 {
        0
    } else if skipped(raws, n - 1) {
        counted(raws, n - 1)
    } else {
        counted(raws, n - 1) + 1
    }
}

/// The parameters that the list `list` declares.
pub open spec fn parameters_of(list: Seq<char>) -> Seq<ParameterView> {
    parameters_upto(entries_of(list), entries_of(list).len() as int)
}

/// How a parameter is written: its name, a colon, its type.
pub open spec fn rendered_parameter(p: ParameterView) -> Seq<char> {
    p.name + ":"@ + p.ty
}

/// How each parameter of `ps` is written.
pub open spec fn rendered_each(ps: Seq<ParameterView>) -> Seq<Seq<char>> {
    Seq::new(ps.len(), |i: int| rendered_parameter(ps[i]))
}

/// How the parameters `ps` are written: one after the other, with `, `
/// between them.
pub open spec fn rendered_parameters(ps: Seq<ParameterView>) -> Seq<char> {
    join(rendered_each(ps), ", "@)
}

/// Whether `rs_type` is the receiver of a method: `self`, `&self` or
/// `&mut self`.
pub fn is_self_first_param(rs_type: &str) -> (b: bool)
    ensures
        b == is_receiver(rs_type@),
{
    same_text(rs_type, "self") || same_text(rs_type, "&self") || same_text(rs_type, "&mut self")
}

/// Narrows `span`, which holds what stands before the colon of a
/// parameter, to the name in it.
pub(crate) fn name_span(chars: &Vec<char>, span: Span) -> (r: Span)
    requires
        span.fits(chars@.len()),
    ensures
        r.fits(chars@.len()),
        span.start <= r.start,
        r.end <= span.end,
        r.of(chars@) == bare_name(span.of(chars@)),
{
    let t = trim_span(chars, span);
    let ghost sub = t.of(chars@);
    let mut j: usize = t.end;
    while j > t.start && !is_whitespace(chars[j - 1]) && chars[j - 1] != ']'
        invariant
            t.fits(chars@.len()),
            sub == t.of(chars@),
            t.start <= j <= t.end,
            word_start(sub, sub.len() as int) == word_start(sub, j - t.start),
        decreases j,
    {
        j -= 1;
    }
    let r = Span { start: j, end: t.end };
    assert(r.of(chars@) =~= sub.subrange(j - t.start, sub.len() as int));
    r
}

/// The name of a parameter in what stands before its colon: the last word,
/// behind any attributes and `mut`.
pub fn remove_attributes_and_mut_on_param(rs_fn_param_name: &str) -> (r: String)
    ensures
        r@ == bare_name(rs_fn_param_name@),
        forall|i: int| 0 <= i < r@.len() ==> is_name_char(r@[i]),
{
    proof {
        lemma_bare_name(rs_fn_param_name@);
    }
    let chars = to_chars(rs_fn_param_name);
    let whole = Span { start: 0, end: chars.len() };
    assert(whole.of(chars@) =~= chars@);
    cut(rs_fn_param_name, name_span(&chars, whole))
}

/// Reads the parameter list `rs_fn_input`: what stands between the
/// parentheses of a signature. Its entries are what the commas outside all
/// brackets cut it into. An empty entry declares nothing, and so a comma
/// may end the list; nor does a first entry that is the receiver of a
/// method. Each other entry declares one parameter: its name is the last
/// word before the first colon outside all brackets, its type what stands
/// behind that colon. A list with an entry that lacks this colon is
/// refused as a malformed parameter.
pub fn parse_fn_input(rs_fn_input: &str) -> (r: Result<Vec<Parameter>, ParseError>)
    ensures
        r is Ok <==> !malformed(entries_of(rs_fn_input@)),
        r is Ok ==> parameter_views(r->Ok_0@) == parameters_of(rs_fn_input@),
        r is Ok ==> r->Ok_0@.len() == counted(
            entries_of(rs_fn_input@),
            entries_of(rs_fn_input@).len() as int,
        ),
        r is Ok ==> forall|i: int, k: int|
            0 <= i < r->Ok_0@.len() && 0 <= k < r->Ok_0@[i].name@.len() ==> is_name_char(
                #[trigger] r->Ok_0@[i].name@[k],
            ),
        r is Err ==> r->Err_0 == refusal(ErrorKind::MalformedParameter, rs_fn_input@.len()),
{
    let chars = to_chars(rs_fn_input);
    let whole = Span { start: 0, end: chars.len() };
    assert(whole.of(chars@) =~= chars@);
    let parts = split(&chars, whole, ',', true);
    let ghost raws = entries_of(rs_fn_input@);
    let mut out: Vec<Parameter> = Vec::new();
    let mut i: usize = 0;
    while i < parts.len()
        invariant
            chars@ == rs_fn_input@,
            whole == (Span { start: 0, end: chars.len() }),
            i <= parts@.len(),
            raws == texts(chars@, parts@),
            raws == entries_of(rs_fn_input@),
            forall|j: int|
                0 <= j < parts@.len() ==> (#[trigger] parts@[j]).start <= parts@[j].end
                    && parts@[j].end <= chars@.len(),
            forall|j: int| 0 <= j < i ==> !lacks_colon(raws, j),
            parameter_views(out@) == parameters_upto(raws, i as int),
            out@.len() == counted(raws, i as int),
            forall|j: int, k: int|
                0 <= j < out@.len() && 0 <= k < out@[j].name@.len() ==> is_name_char(
                    #[trigger] out@[j].name@[k],
                ),
        decreases parts@.len() - i,
    {
        let e = trim_span(&chars, parts[i]);
        let ghost entry = e.of(chars@);
        assert(entry == trim(raws[i as int]));
        if e.start < e.end {
            let receiver = i == 0 && is_self_first_param(cut(rs_fn_input, e).as_str());
            if !receiver {
                let c = find_sep(&chars, e, ':', true);
                if c >= e.end {
                    assert(lacks_colon(raws, i as int));
                    return Err(ParseError { kind: ErrorKind::MalformedParameter, span: whole });
                }
                let before = Span { start: e.start, end: c };
                let behind = Span { start: c + 1, end: e.end };
                assert(before.of(chars@) =~= entry.subrange(0, c - e.start));
                assert(behind.of(chars@) =~= entry.subrange(c - e.start + 1, entry.len() as int));
                let name = cut(rs_fn_input, name_span(&chars, before));
                let ty = cut(rs_fn_input, trim_span(&chars, behind));
                let ghost was = parameter_views(out@);
                proof {
                    lemma_bare_name(before.of(chars@));
                }
                out.push(Parameter { name, ty });
                assert(parameter_views(out@) =~= was.push(parameter_of(entry)));
            }
        }
        i += 1;
    }
    Ok(out)
}

/// Writes the parameters as TypeScript has them between the parentheses:
/// each as its name, a colon and its type, with `, ` between them.
pub fn render_parameters(parameters: &Vec<Parameter>) -> (r: String)
    ensures
        r@ == rendered_parameters(parameter_views(parameters@)),
{
    let ghost all = rendered_each(parameter_views(parameters@));
    let mut parts: Vec<String> = Vec::new();
    let mut i: usize = 0;
    while i < parameters.len()
        invariant
            i <= parameters@.len(),
            all == rendered_each(parameter_views(parameters@)),
            views(parts@) == all.take(i as int),
        decreases parameters@.len() - i,
    {
        let mut one = parameters[i].name.clone();
        one.append(":");
        one.append(parameters[i].ty.as_str());
        push_text(&mut parts, one.as_str());
        assert(views(parts@) =~= all.take(i + 1));
        i += 1;
    }
    assert(all.take(i as int) =~= all);
    join_strings(&parts, ", ")
}

} // verus!
