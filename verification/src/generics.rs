//! The bounds on the generic parameters of a function: how they are
//! gathered from the text and how they are written in TypeScript.

use crate::scan::{find_sep, next_sep, pieces, split, texts};
use crate::text::{cut, join, join_strings, push_text, to_chars, trim, trim_span, views, Span};
use crate::types::{is_lifetime, is_lifetime_type, same_text};
use vstd::prelude::*;
use vstd::string::*;

verus! {

/// A generic parameter with the bounds on it, in the order in which they
/// were given.
pub struct Constraint {
    pub key: Seq<char>,
    pub bounds: Seq<Seq<char>>,
}

/// The first place from `from` on at which `m` holds `key`, or `m.len()`.
pub open spec fn position(m: Seq<Constraint>, key: Seq<char>, from: int) -> int
    decreases m.len() - from,
{
    if from < 0 || from >= m.len() {
        m.len() as int
    } else if m[from].key == key {
        from
    } else {
        position(m, key, from + 1)
    }
}

/// The bounds of `bounds` that are no lifetimes.
pub open spec fn plain(bounds: Seq<Seq<char>>) -> Seq<Seq<char>>
    decreases bounds.len(),
{
    if bounds.len() == 0 {
        bounds
    } else if is_lifetime(bounds.last()) {
        plain(bounds.drop_last())
    } else {
        plain(bounds.drop_last()).push(bounds.last())
    }
}

/// `m` after `bounds` were given for `key`. A lifetime is no key and no
/// bound. The bounds of a key that `m` holds already are put behind those it
/// has; a new key comes last.
pub open spec fn merge(m: Seq<Constraint>, key: Seq<char>, bounds: Seq<Seq<char>>) -> Seq<
    Constraint,
> {
    let at = position(m, key, 0);
    if is_lifetime(key) {
        m
    } else if at < m.len() {
        m.update(at, Constraint { key, bounds: m[at].bounds + plain(bounds) })
    } else {
        m.push(Constraint { key, bounds: plain(bounds) })
    }
}

/// Whether no key occurs twice in `m` and no lifetime occurs in it, as a key
/// or as a bound.
pub open spec fn well_formed(m: Seq<Constraint>) -> bool {
    &&& forall|i: int, j: int| 0 <= i < j < m.len() ==> m[i].key != m[j].key
    &&& forall|i: int| 0 <= i < m.len() ==> !is_lifetime(#[trigger] m[i].key)
    &&& forall|i: int, k: int|
        0 <= i < m.len() && 0 <= k < m[i].bounds.len() ==> !is_lifetime(#[trigger] m[i].bounds[k])
}

/// What `position` finds.
pub proof fn lemma_position(m: Seq<Constraint>, key: Seq<char>, from: int)
    requires
        0 <= from <= m.len(),
    ensures
        from <= position(m, key, from) <= m.len(),
        position(m, key, from) < m.len() ==> m[position(m, key, from)].key == key,
        forall|i: int| from <= i < position(m, key, from) ==> (#[trigger] m[i]).key != key,
    decreases m.len() - from,
{
    if from < m.len() && m[from].key != key {
        lemma_position(m, key, from + 1);
    }
}

/// No lifetime is left in `plain(bounds)`.
pub proof fn lemma_plain(bounds: Seq<Seq<char>>)
    ensures
        forall|k: int| 0 <= k < plain(bounds).len() ==> !is_lifetime(#[trigger] plain(bounds)[k]),
    decreases bounds.len(),
{
    if bounds.len() > 0 {
        let init = plain(bounds.drop_last());
        lemma_plain(bounds.drop_last());
        assert forall|k: int| 0 <= k < plain(bounds).len() implies !is_lifetime(
            #[trigger] plain(bounds)[k],
        ) by {
            if k < init.len() {
                assert(plain(bounds)[k] == init[k]);
            }
        }
    }
}

/// `merge` keeps a well-formed map well-formed.
pub proof fn lemma_merge_well_formed(m: Seq<Constraint>, key: Seq<char>, bounds: Seq<Seq<char>>)
    requires
        well_formed(m),
    ensures
        well_formed(merge(m, key, bounds)),
{
    lemma_position(m, key, 0);
    lemma_plain(bounds);
    let r = merge(m, key, bounds);
    let at = position(m, key, 0);
    if !is_lifetime(key) {
        assert forall|i: int, k: int|
            0 <= i < r.len() && 0 <= k < r[i].bounds.len() implies !is_lifetime(
            #[trigger] r[i].bounds[k],
        ) by {
            if i == at && at < m.len() {
                if k < m[at].bounds.len() {
                    assert(r[i].bounds[k] == m[at].bounds[k]);
                } else {
                    assert(r[i].bounds[k] == plain(bounds)[k - m[at].bounds.len()]);
                }
            } else if i == at {
                assert(r[i].bounds[k] == plain(bounds)[k]);
            } else {
                assert(r[i].bounds[k] == m[i].bounds[k]);
            }
        }
    }
}

/// One generic parameter of a `GenericConstraintMap`.
#[derive(Clone, Debug, PartialEq, Eq)]
pub struct GenericEntry {
    pub key: String,
    pub bounds: Vec<String>,
}

impl View for GenericEntry {
    type V = Constraint;

    open spec fn view(&self) -> Constraint {
        Constraint { key: self.key@, bounds: views(self.bounds@) }
    }
}

/// The generic parameters of a function with the bounds on each, in the
/// order in which the parameters were first seen.
#[derive(Clone, Debug, PartialEq, Eq)]
pub struct GenericConstraintMap {
    entries: Vec<GenericEntry>,
}

impl View for GenericConstraintMap {
    type V = Seq<Constraint>;

    closed spec fn view(&self) -> Seq<Constraint> {
        Seq::new(self.entries@.len(), |i: int| self.entries@[i]@)
    }
}

impl GenericConstraintMap {
    /// Whether the map keeps its rule: see `well_formed`.
    pub open spec fn wf(&self) -> bool {
        well_formed(self@)
    }

    /// A map without parameters.
    pub fn new() -> (r: Self)
        ensures
            r@ == Seq::<Constraint>::empty(),
            r.wf(),
    {
        let r = GenericConstraintMap { entries: Vec::new() };
        assert(r@ =~= Seq::<Constraint>::empty());
        r
    }

    /// The number of parameters.
    pub fn len(&self) -> (n: usize)
        ensures
            n == self@.len(),
    {
        self.entries.len()
    }

    /// Whether the map holds no parameter.
    pub fn is_empty(&self) -> (b: bool)
        ensures
            b == (self@.len() == 0),
    {
        self.entries.len() == 0
    }

    /// The parameters with their bounds, in the order in which they were
    /// first seen.
    pub fn entries(&self) -> (r: &Vec<GenericEntry>)
        ensures
            r@.len() == self@.len(),
            forall|i: int| 0 <= i < r@.len() ==> (#[trigger] r@[i])@ == self@[i],
    {
        &self.entries
    }

    /// Where the map holds `key`, or `len()`.
    pub fn find(&self, key: &str) -> (at: usize)
        ensures
            at == position(self@, key@, 0),
            at <= self@.len(),
    {
        let mut i: usize = 0;
        while i < self.entries.len()
            invariant
                i <= self.entries@.len(),
                position(self@, key@, 0) == position(self@, key@, i as int),
            decreases self.entries@.len() - i,
        {
            if same_text(self.entries[i].key.as_str(), key) {
                return i;
            }
            i += 1;
        }
        i
    }

    /// Gives `bounds` for the parameter `key`: see `merge`.
    pub fn insert(&mut self, key: &str, bounds: &Vec<String>)
        requires
            old(self).wf(),
        ensures
            final(self).wf(),
            final(self)@ == merge(old(self)@, key@, views(bounds@)),
    {
        proof {
            lemma_merge_well_formed(self@, key@, views(bounds@));
        }
        if is_lifetime_type(key) {
            return ;
        }
        let at = self.find(key);
        let mut all: Vec<String> = Vec::new();
        if at < self.entries.len() {
            let mut k: usize = 0;
            while k < self.entries[at].bounds.len()
                invariant
                    at < self.entries@.len(),
                    k <= self.entries@[at as int].bounds@.len(),
                    views(all@) == views(self.entries@[at as int].bounds@).take(k as int),
                decreases self.entries@[at as int].bounds@.len() - k,
            {
                push_text(&mut all, self.entries[at].bounds[k].as_str());
                assert(views(all@) =~= views(self.entries@[at as int].bounds@).take(k + 1));
                k += 1;
            }
            assert(views(all@) =~= self@[at as int].bounds);
        }
        let ghost had = views(all@);
        let mut k: usize = 0;
        while k < bounds.len()
            invariant
                k <= bounds@.len(),
                views(all@) == had + plain(views(bounds@).take(k as int)),
            decreases bounds@.len() - k,
        {
            proof {
                let next = views(bounds@).take(k + 1);
                assert(next.drop_last() =~= views(bounds@).take(k as int));
                assert(next.last() == bounds@[k as int]@);
            }
            if !is_lifetime_type(bounds[k].as_str()) {
                push_text(&mut all, bounds[k].as_str());
                assert(views(all@) =~= had + plain(views(bounds@).take(k + 1)));
            }
            k += 1;
        }
        assert(views(bounds@).take(k as int) =~= views(bounds@));
        let entry = GenericEntry { key: key.to_owned(), bounds: all };
        if at < self.entries.len() {
            self.entries.set(at, entry);
        } else {
            self.entries.push(entry);
        }
        assert(self@ =~= merge(old(self)@, key@, views(bounds@)));
    }
}

/// The bounds that `parts` name: each part without the white space at its
/// ends, the empty ones left out.
pub open spec fn named(parts: Seq<Seq<char>>) -> Seq<Seq<char>>
    decreases parts.len(),
{
    if parts.len() == 0 {
        parts
    } else if trim(parts.last()).len() == 0 {
        named(parts.drop_last())
    } else {
        named(parts.drop_last()).push(trim(parts.last()))
    }
}

/// The parameter that the entry `e` is about: what stands before its first
/// colon, or all of it where it has none.
pub open spec fn entry_key(e: Seq<char>) -> Seq<char> {
    trim(e.subrange(0, next_sep(e, ':', false, 0)))
}

/// The bounds that the entry `e` gives: what stands behind its first colon,
/// cut at each `+`.
pub open spec fn entry_bounds(e: Seq<char>) -> Seq<Seq<char>> {
    let colon = next_sep(e, ':', false, 0);
    if colon >= e.len() {
        Seq::empty()
    } else {
        named(pieces(e.subrange(colon + 1, e.len() as int), '+', false))
    }
}

/// `m` after the entry `raw` of a list of generic parameters, or of a
/// `where` clause, was read. An empty entry and one about a lifetime change
/// nothing.
pub open spec fn register(m: Seq<Constraint>, raw: Seq<char>) -> Seq<Constraint> {
    let e = trim(raw);
    if e.len() == 0 || is_lifetime(e) {
        m
    } else {
        merge(m, entry_key(e), entry_bounds(e))
    }
}

/// `m` after the entries `raws` were read, one after the other.
pub open spec fn register_all(m: Seq<Constraint>, raws: Seq<Seq<char>>) -> Seq<Constraint>
    decreases raws.len(),
{
    if raws.len() == 0 {
        m
    } else {
        register(register_all(m, raws.drop_last()), raws.last())
    }
}

/// `m` after the list `list` was read: its entries are what the commas
/// outside all brackets cut it into.
pub open spec fn declared(m: Seq<Constraint>, list: Seq<char>) -> Seq<Constraint> {
    register_all(m, pieces(list, ',', true))
}

/// Reads the bounds that stand in `span`, cut at each `+`.
pub(crate) fn bounds_in(text: &str, chars: &Vec<char>, span: Span) -> (bounds: Vec<String>)
    requires
        chars@ == text@,
        span.fits(chars@.len()),
    ensures
        views(bounds@) == named(pieces(span.of(chars@), '+', false)),
{
    let parts = split(chars, span, '+', false);
    let ghost raws = texts(chars@, parts@);
    let mut bounds: Vec<String> = Vec::new();
    let mut k: usize = 0;
    while k < parts.len()
        invariant
            chars@ == text@,
            span.fits(chars@.len()),
            k <= parts@.len(),
            raws == texts(chars@, parts@),
            forall|j: int|
                0 <= j < parts@.len() ==> span.start <= (#[trigger] parts@[j]).start
                    && parts@[j].start <= parts@[j].end && parts@[j].end <= span.end,
            views(bounds@) == named(raws.take(k as int)),
        decreases parts@.len() - k,
    {
        proof {
            let next = raws.take(k + 1);
            assert(next.drop_last() =~= raws.take(k as int));
            assert(next.last() == parts@[k as int].of(chars@));
        }
        let t = trim_span(chars, parts[k]);
        if t.start < t.end {
            let bound = cut(text, t);
            push_text(&mut bounds, bound.as_str());
        }
        k += 1;
    }
    assert(raws.take(k as int) =~= raws);
    bounds
}

/// Reads the entry that stands in `piece` into `map`.
pub(crate) fn register_entry(text: &str, chars: &Vec<char>, piece: Span, map: &mut GenericConstraintMap)
    requires
        chars@ == text@,
        piece.fits(chars@.len()),
        old(map).wf(),
    ensures
        final(map).wf(),
        final(map)@ == register(old(map)@, piece.of(chars@)),
{
    let e = trim_span(chars, piece);
    if e.start == e.end || chars[e.start] == '\'' {
        return ;
    }
    let ghost entry = e.of(chars@);
    let colon = find_sep(chars, e, ':', false);
    let before = Span { start: e.start, end: colon };
    assert(before.of(chars@) =~= entry.subrange(0, colon - e.start));
    let key = cut(text, trim_span(chars, before));
    let mut bounds: Vec<String> = Vec::new();
    if colon < e.end {
        let behind = Span { start: colon + 1, end: e.end };
        assert(behind.of(chars@) =~= entry.subrange(colon - e.start + 1, entry.len() as int));
        bounds = bounds_in(text, chars, behind);
    } else {
        assert(views(bounds@) =~= Seq::<Seq<char>>::empty());
    }
    map.insert(key.as_str(), &bounds);
}

/// Reads a list of generic parameters, or the predicates of a `where`
/// clause, into `generic_params_map`. The entries are what the commas
/// outside all brackets cut the list into. Each names a parameter and,
/// behind a colon, its bounds with `+` between them. The bounds are put
/// behind those that the map holds for the parameter already. Lifetimes are
/// left out, as parameters and as bounds.
pub fn parse_fn_generic_params(
    rs_fn_generic_params: &str,
    generic_params_map: &mut GenericConstraintMap,
)
    requires
        old(generic_params_map).wf(),
    ensures
        final(generic_params_map).wf(),
        final(generic_params_map)@ == declared(old(generic_params_map)@, rs_fn_generic_params@),
{
    let chars = to_chars(rs_fn_generic_params);
    let whole = Span { start: 0, end: chars.len() };
    assert(whole.of(chars@) =~= chars@);
    let parts = split(&chars, whole, ',', true);
    let ghost raws = texts(chars@, parts@);
    let mut i: usize = 0;
    while i < parts.len()
        invariant
            chars@ == rs_fn_generic_params@,
            i <= parts@.len(),
            raws == texts(chars@, parts@),
            forall|j: int|
                0 <= j < parts@.len() ==> (#[trigger] parts@[j]).start <= parts@[j].end
                    && parts@[j].end <= chars@.len(),
            generic_params_map.wf(),
            generic_params_map@ == register_all(old(generic_params_map)@, raws.take(i as int)),
        decreases parts@.len() - i,
    {
        proof {
            let next = raws.take(i + 1);
            assert(next.drop_last() =~= raws.take(i as int));
            assert(next.last() == parts@[i as int].of(chars@));
        }
        register_entry(rs_fn_generic_params, &chars, parts[i], generic_params_map);
        i += 1;
    }
    assert(raws.take(i as int) =~= raws);
}

/// `s` with each text kept where it stands first.
pub open spec fn distinct(s: Seq<Seq<char>>) -> Seq<Seq<char>>
    decreases s.len(),
{
    if s.len() == 0 {
        s
    } else if distinct(s.drop_last()).contains(s.last()) {
        distinct(s.drop_last())
    } else {
        distinct(s.drop_last()).push(s.last())
    }
}

/// How one parameter is written: its name and, where it has bounds,
/// `extends` and its distinct bounds with `&` between them.
pub open spec fn rendered_constraint(c: Constraint) -> Seq<char> {
    if c.bounds.len() == 0 {
        c.key
    } else {
        c.key + " extends "@ + join(distinct(c.bounds), " & "@)
    }
}

/// How each parameter of `m` is written.
pub open spec fn rendered_constraints(m: Seq<Constraint>) -> Seq<Seq<char>> {
    Seq::new(m.len(), |i: int| rendered_constraint(m[i]))
}

/// How the parameters of `m` are written: one after the other, in the order
/// of `m`, with `, ` between them.
pub open spec fn rendered_generics(m: Seq<Constraint>) -> Seq<char> {
    join(rendered_constraints(m), ", "@)
}

/// Whether `list` holds the text `s`.
pub fn holds(list: &Vec<String>, s: &str) -> (b: bool)
    ensures
        b == views(list@).contains(s@),
{
    let mut i: usize = 0;
    while i < list.len()
        invariant
            i <= list@.len(),
            forall|j: int| 0 <= j < i ==> views(list@)[j] != s@,
        decreases list@.len() - i,
    {
        if same_text(list[i].as_str(), s) {
            assert(views(list@)[i as int] == s@);
            return true;
        }
        i += 1;
    }
    false
}

/// The texts of `list`, each kept where it stands first.
pub fn dedup(list: &Vec<String>) -> (out: Vec<String>)
    ensures
        views(out@) == distinct(views(list@)),
{
    let mut out: Vec<String> = Vec::new();
    let mut i: usize = 0;
    while i < list.len()
        invariant
            i <= list@.len(),
            views(out@) == distinct(views(list@).take(i as int)),
        decreases list@.len() - i,
    {
        proof {
            let next = views(list@).take(i + 1);
            assert(next.drop_last() =~= views(list@).take(i as int));
            assert(next.last() == list@[i as int]@);
        }
        if !holds(&out, list[i].as_str()) {
            push_text(&mut out, list[i].as_str());
        }
        i += 1;
    }
    assert(views(list@).take(i as int) =~= views(list@));
    out
}

/// Writes one parameter: see `rendered_constraint`.
pub fn render_entry(entry: &GenericEntry) -> (r: String)
    ensures
        r@ == rendered_constraint(entry@),
{
    let mut out = entry.key.clone();
    if entry.bounds.len() > 0 {
        let bounds = dedup(&entry.bounds);
        let joined = join_strings(&bounds, " & ");
        out.append(" extends ");
        out.append(joined.as_str());
    }
    out
}

/// Writes the generic parameters of `generic_params_map` as TypeScript has
/// them between `<` and `>`: in the order in which they were first seen,
/// with `, ` between them, each with `extends` and its distinct bounds
/// where it has any.
pub fn transform_generic_params(generic_params_map: &GenericConstraintMap) -> (r: String)
    ensures
        r@ == rendered_generics(generic_params_map@),
{
    let entries = generic_params_map.entries();
    let mut parts: Vec<String> = Vec::new();
    let mut i: usize = 0;
    while i < entries.len()
        invariant
            i <= entries@.len(),
            entries@.len() == generic_params_map@.len(),
            forall|j: int| 0 <= j < entries@.len() ==> (#[trigger] entries@[j])@ == generic_params_map@[j],
            views(parts@) == rendered_constraints(generic_params_map@).take(i as int),
        decreases entries@.len() - i,
    {
        let one = render_entry(&entries[i]);
        push_text(&mut parts, one.as_str());
        assert(views(parts@) =~= rendered_constraints(generic_params_map@).take(i + 1));
        i += 1;
    }
    assert(rendered_constraints(generic_params_map@).take(i as int) =~= rendered_constraints(
        generic_params_map@,
    ));
    join_strings(&parts, ", ")
}

} // verus!
