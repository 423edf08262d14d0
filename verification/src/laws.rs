//! What holds of every signature and every declaration.

use crate::generics::{
    distinct, entry_bounds, entry_key, lemma_merge_well_formed, lemma_position, merge, plain,
    position, register, register_all, rendered_constraint, rendered_constraints,
    rendered_generics, well_formed, Constraint,
};
use crate::header::{declaration, generic_list, generics_of};
use crate::output::where_body;
use crate::params::{counted, entries_of, parameters_of, parameters_upto, rendered_each};
use crate::scan::{depth, lemma_next_sep, next_sep, pieces, pieces_from, sep_at};
use crate::segment::segmented;
use crate::signature::{
    declaration_head, emitted, generic_clause, has_bounds, rendered_return, signature_of,
    SignatureView,
};
use crate::text::{is_space, join, leading, trailing, trim};
use crate::types::is_lifetime;
use vstd::prelude::*;

verus! {

/// Where `leading` and `trailing` stop: at a character that is no white
/// space, or at the end of what they were given.
pub proof fn lemma_trim_bounds(s: Seq<char>, i: int, j: int)
    requires
        0 <= i <= j <= s.len(),
    ensures
        i <= leading(s, i) <= s.len(),
        i <= trailing(s, i, j) <= j,
        leading(s, i) < s.len() ==> !is_space(s[leading(s, i)]),
        i < trailing(s, i, j) ==> !is_space(s[trailing(s, i, j) - 1]),
    decreases s.len() - i, j,
{
    if i < s.len() && is_space(s[i]) {
        lemma_trim_bounds(s, i + 1, s.len() as int);
    }
    if i < j && is_space(s[j - 1]) {
        lemma_trim_bounds(s, i, j - 1);
    }
}

/// What `trim` keeps neither begins nor ends with white space.
pub proof fn lemma_trim_is_tight(s: Seq<char>)
    ensures
        trim(s).len() > 0 ==> !is_space(trim(s).first()) && !is_space(trim(s).last()),
{
    let a = leading(s, 0);
    lemma_trim_bounds(s, 0, s.len() as int);
    lemma_trim_bounds(s, a, s.len() as int);
}

/// A declaration is never empty and ends with a semicolon.
pub proof fn lemma_declaration_ends_with_semicolon(sig: SignatureView)
    ensures
        emitted(sig).len() > 0,
        emitted(sig).last() == ';',
{
    reveal_strlit(";");
}

/// The return type of an `async` function is written inside one
/// `Promise<` and `>`, that of any other function as it is; nothing else in
/// the declaration depends on whether the function is `async`.
pub proof fn lemma_async_wraps_once(sig: SignatureView)
    ensures
        ({
            let head = declaration_head(sig);
            let with = SignatureView { is_async: true, ..sig };
            let without = SignatureView { is_async: false, ..sig };
            &&& emitted(with) == head + "Promise<"@ + sig.return_type + ">"@ + ";"@
            &&& emitted(without) == head + sig.return_type + ";"@
        }),
{
    let head = declaration_head(sig);
    let with = SignatureView { is_async: true, ..sig };
    let without = SignatureView { is_async: false, ..sig };
    assert(declaration_head(with) == head);
    assert(declaration_head(without) == head);
    assert(emitted(with) =~= head + "Promise<"@ + sig.return_type + ">"@ + ";"@);
}

/// As many parameters are read from a list as it has entries that are
/// neither empty nor a receiver, and as many are written.
pub proof fn lemma_parameter_count(list: Seq<char>)
    ensures
        parameters_of(list).len() == counted(entries_of(list), entries_of(list).len() as int),
        rendered_each(parameters_of(list)).len() == parameters_of(list).len(),
{
    lemma_counted(entries_of(list), entries_of(list).len() as int);
}

/// As many parameters are read from the first `n` entries as are counted
/// among them.
pub proof fn lemma_counted(raws: Seq<Seq<char>>, n: int)
    ensures
        parameters_upto(raws, n).len() == counted(raws, n),
    decreases n,
{
    if n > 0 {
        lemma_counted(raws, n - 1);
    }
}

/// An entry that is a lifetime changes nothing.
pub proof fn lemma_lifetime_entry_ignored(m: Seq<Constraint>, raw: Seq<char>)
    requires
        is_lifetime(trim(raw)),
    ensures
        register(m, raw) == m,
{
}

/// Entries that are all lifetimes declare nothing.
pub proof fn lemma_lifetimes_declare_nothing(m: Seq<Constraint>, raws: Seq<Seq<char>>)
    requires
        forall|i: int| 0 <= i < raws.len() ==> is_lifetime(trim(#[trigger] raws[i])),
    ensures
        register_all(m, raws) == m,
    decreases raws.len(),
{
    if raws.len() > 0 {
        let init = raws.drop_last();
        assert forall|i: int| 0 <= i < init.len() implies is_lifetime(trim(#[trigger] init[i])) by {
            assert(init[i] == raws[i]);
        }
        lemma_lifetimes_declare_nothing(m, init);
        assert(is_lifetime(trim(raws[raws.len() - 1])));
    }
}

/// Reading entries keeps a map well-formed: no lifetime becomes a key or a
/// bound.
pub proof fn lemma_register_all_well_formed(m: Seq<Constraint>, raws: Seq<Seq<char>>)
    requires
        well_formed(m),
    ensures
        well_formed(register_all(m, raws)),
    decreases raws.len(),
{
    if raws.len() > 0 {
        lemma_register_all_well_formed(m, raws.drop_last());
        let before = register_all(m, raws.drop_last());
        let e = trim(raws.last());
        if !(e.len() == 0 || is_lifetime(e)) {
            lemma_merge_well_formed(
                before,
                entry_key(e),
                entry_bounds(e),
            );
        }
    }
}

/// No lifetime is written in the generic clause of a signature that was
/// read from text: none is a parameter of it, and none a bound.
pub proof fn lemma_no_lifetime_is_emitted(s: Seq<char>)
    ensures
        well_formed(signature_of(s).generics),
{
    let g = segmented(s);
    let h = g.header.of(s);
    let d = declaration(h);
    let o = g.output.of(s);
    assert(well_formed(Seq::<Constraint>::empty()));
    lemma_register_all_well_formed(
        Seq::empty(),
        pieces(generic_list(d), ',', true),
    );
    assert(well_formed(generics_of(d)));
    lemma_register_all_well_formed(generics_of(d), pieces(where_body(o), ',', true));
}

/// A text is in `distinct(s)` exactly if it is in `s`.
pub proof fn lemma_distinct_contains(s: Seq<Seq<char>>, v: Seq<char>)
    ensures
        distinct(s).contains(v) <==> s.contains(v),
    decreases s.len(),
{
    if s.len() > 0 {
        let init = s.drop_last();
        let l = s.last();
        let d = distinct(init);
        lemma_distinct_contains(init, v);
        lemma_distinct_contains(init, l);
        assert(s.contains(v) <==> init.contains(v) || l == v) by {
            if s.contains(v) {
                let i = choose|i: int| 0 <= i < s.len() && s[i] == v;
                if i < s.len() - 1 {
                    assert(init[i] == v);
                }
            }
            if init.contains(v) {
                let i = choose|i: int| 0 <= i < init.len() && init[i] == v;
                assert(s[i] == v);
            }
            if l == v {
                assert(s[s.len() - 1] == v);
            }
        }
        if !d.contains(l) {
            let ds = d.push(l);
            assert(ds.contains(v) <==> d.contains(v) || l == v) by {
                if ds.contains(v) {
                    let i = choose|i: int| 0 <= i < ds.len() && ds[i] == v;
                    if i < d.len() {
                        assert(d[i] == v);
                    }
                }
                if d.contains(v) {
                    let i = choose|i: int| 0 <= i < d.len() && d[i] == v;
                    assert(ds[i] == v);
                }
                if l == v {
                    assert(ds[d.len() as int] == v);
                }
            }
        }
    }
}

/// Texts that `a` holds already add nothing to `distinct(a)`.
pub proof fn lemma_distinct_absorbs(a: Seq<Seq<char>>, b: Seq<Seq<char>>)
    requires
        forall|k: int| 0 <= k < b.len() ==> a.contains(#[trigger] b[k]),
    ensures
        distinct(a + b) == distinct(a),
    decreases b.len(),
{
    if b.len() == 0 {
        assert(a + b =~= a);
    } else {
        let init = b.drop_last();
        assert forall|k: int| 0 <= k < init.len() implies a.contains(#[trigger] init[k]) by {
            assert(init[k] == b[k]);
        }
        lemma_distinct_absorbs(a, init);
        assert((a + b).drop_last() =~= a + init);
        assert((a + b).last() == b[b.len() - 1]);
        lemma_distinct_contains(a, b[b.len() - 1]);
    }
}

/// Each bound of `plain(bounds)` is one of `bounds`.
pub proof fn lemma_plain_is_part(bounds: Seq<Seq<char>>)
    ensures
        forall|k: int| 0 <= k < plain(bounds).len() ==> bounds.contains(#[trigger] plain(bounds)[k]),
    decreases bounds.len(),
{
    if bounds.len() > 0 {
        let init = bounds.drop_last();
        lemma_plain_is_part(init);
        assert forall|k: int| 0 <= k < plain(bounds).len() implies bounds.contains(
            #[trigger] plain(bounds)[k],
        ) by {
            if k < plain(init).len() {
                assert(plain(bounds)[k] == plain(init)[k]);
                let j = choose|j: int| 0 <= j < init.len() && init[j] == plain(init)[k];
                assert(bounds[j] == plain(bounds)[k]);
            } else {
                assert(bounds[bounds.len() - 1] == plain(bounds)[k]);
            }
        }
    }
}

/// Bounds that a parameter has already change nothing in what is written:
/// each bound is written once, where it was first given.
pub proof fn lemma_known_bounds_change_nothing(
    m: Seq<Constraint>,
    key: Seq<char>,
    bounds: Seq<Seq<char>>,
)
    requires
        position(m, key, 0) < m.len(),
        forall|k: int|
            0 <= k < bounds.len() ==> m[position(m, key, 0)].bounds.contains(#[trigger] bounds[k]),
    ensures
        rendered_generics(merge(m, key, bounds)) == rendered_generics(m),
        generic_clause(merge(m, key, bounds)) == generic_clause(m),
{
    let at = position(m, key, 0);
    let r = merge(m, key, bounds);
    lemma_position(m, key, 0);
    if !is_lifetime(key) {
        let had = m[at].bounds;
        let more = plain(bounds);
        lemma_plain_is_part(bounds);
        assert forall|k: int| 0 <= k < more.len() implies had.contains(#[trigger] more[k]) by {
            let j = choose|j: int| 0 <= j < bounds.len() && bounds[j] == more[k];
            assert(had.contains(bounds[j]));
        }
        lemma_distinct_absorbs(had, more);
        if had.len() == 0 {
            if more.len() > 0 {
                assert(had.contains(more[0]));
                let j = choose|j: int| 0 <= j < had.len() && had[j] == more[0];
            }
            assert(had + more =~= had);
        }
        assert(rendered_constraint(r[at]) == rendered_constraint(m[at]));
        assert(rendered_constraints(r) =~= rendered_constraints(m));
        if has_bounds(m) {
            let i = choose|i: int| 0 <= i < m.len() && (#[trigger] m[i]).bounds.len() > 0;
            assert(r[i].bounds.len() > 0);
        }
        if has_bounds(r) {
            let i = choose|i: int| 0 <= i < r.len() && (#[trigger] r[i]).bounds.len() > 0;
            assert(m[i].bounds.len() > 0);
        }
    }
}

/// Joining with a first text in front.
pub proof fn lemma_join_front(a: Seq<char>, q: Seq<Seq<char>>, sep: Seq<char>)
    requires
        q.len() > 0,
    ensures
        join(seq![a] + q, sep) == a + sep + join(q, sep),
    decreases q.len(),
{
    let all = seq![a] + q;
    if q.len() == 1 {
        assert(all.drop_last() =~= seq![a]);
        assert(join(seq![a], sep) == a);
        assert(all.last() == q[0]);
        assert(join(q, sep) == q[0]);
        assert(join(all, sep) == join(all.drop_last(), sep) + sep + all.last());
    } else {
        assert(all.drop_last() =~= seq![a] + q.drop_last());
        lemma_join_front(a, q.drop_last(), sep);
        assert(all.last() == q.last());
        assert(join(all, sep) =~= a + sep + join(q, sep));
    }
}

/// The pieces of a text, joined by the separator, are the text.
pub proof fn lemma_pieces_join(s: Seq<char>, sep: char, top: bool, from: int)
    requires
        0 <= from <= s.len(),
    ensures
        pieces_from(s, sep, top, from).len() >= 1,
        join(pieces_from(s, sep, top, from), seq![sep]) == s.subrange(from, s.len() as int),
    decreases s.len() - from,
{
    let k = next_sep(s, sep, top, from);
    lemma_next_sep(s, sep, top, from);
    if k < s.len() {
        lemma_pieces_join(s, sep, top, k + 1);
        lemma_join_front(s.subrange(from, k), pieces_from(s, sep, top, k + 1), seq![sep]);
        assert(s.subrange(from, k) + seq![sep] + s.subrange(k + 1, s.len() as int) =~= s.subrange(
            from,
            s.len() as int,
        ));
    }
}

/// Where the separator behind the piece `j` of `ps` stands, counted from
/// where the first piece begins.
pub open spec fn cut_at(ps: Seq<Seq<char>>, j: int) -> int
    decreases j,
{
    if j <= 0 {
        ps[0].len() as int
    } else {
        cut_at(ps, j - 1) + 1 + ps[j].len()
    }
}

/// `cut_at` with a first piece in front.
pub proof fn lemma_cut_front(a: Seq<char>, q: Seq<Seq<char>>, j: int)
    requires
        1 <= j <= q.len(),
    ensures
        cut_at(seq![a] + q, j) == a.len() + 1 + cut_at(q, j - 1),
    decreases j,
{
    let all = seq![a] + q;
    assert(all[0] == a);
    assert(all[j] == q[j - 1]);
    if j > 1 {
        lemma_cut_front(a, q, j - 1);
    } else {
        assert(cut_at(all, 0) == a.len());
    }
}

/// Behind each piece but the last stands a separator as `sep_at` has it.
pub proof fn lemma_cuts_from(s: Seq<char>, sep: char, top: bool, from: int, j: int)
    requires
        0 <= from <= s.len(),
        0 <= j < pieces_from(s, sep, top, from).len() - 1,
    ensures
        sep_at(s, from + cut_at(pieces_from(s, sep, top, from), j), sep, top),
    decreases j,
{
    let k = next_sep(s, sep, top, from);
    lemma_next_sep(s, sep, top, from);
    let first = s.subrange(from, k);
    let rest = pieces_from(s, sep, top, k + 1);
    assert(pieces_from(s, sep, top, from) == seq![first] + rest);
    if j == 0 {
        assert((seq![first] + rest)[0] == first);
    } else {
        lemma_cut_front(first, rest, j);
        lemma_cuts_from(s, sep, top, k + 1, j - 1);
    }
}

/// A text is cut only at separators outside all brackets: behind each piece
/// but the last stands a separator before which no bracket is open, and the
/// pieces joined by the separator are the text. So a comma inside the
/// brackets of a type cuts nothing.
pub proof fn lemma_cut_outside_brackets(s: Seq<char>, sep: char, j: int)
    requires
        0 <= j < pieces(s, sep, true).len() - 1,
    ensures
        0 <= cut_at(pieces(s, sep, true), j) < s.len(),
        s[cut_at(pieces(s, sep, true), j)] == sep,
        depth(s, cut_at(pieces(s, sep, true), j)) == 0,
        join(pieces(s, sep, true), seq![sep]) == s,
{
    lemma_cuts_from(s, sep, true, 0, j);
    lemma_pieces_join(s, sep, true, 0);
    assert(s.subrange(0, s.len() as int) =~= s);
}

/// Whether `s` holds no line break.
pub open spec fn one_line(s: Seq<char>) -> bool {
    forall|i: int| 0 <= i < s.len() ==> s[i] != '\n'
}

/// Whether no text of a signature holds a line break.
pub open spec fn all_on_one_line(sig: SignatureView) -> bool {
    &&& one_line(sig.identifier)
    &&& one_line(sig.return_type)
    &&& forall|i: int|
        0 <= i < sig.parameters.len() ==> one_line((#[trigger] sig.parameters[i]).name) && one_line(
            sig.parameters[i].ty,
        )
    &&& forall|i: int| 0 <= i < sig.generics.len() ==> one_line((#[trigger] sig.generics[i]).key)
    &&& forall|i: int, k: int|
        0 <= i < sig.generics.len() && 0 <= k < sig.generics[i].bounds.len() ==> one_line(
            #[trigger] sig.generics[i].bounds[k],
        )
}

/// Texts without a line break, joined by one without, hold none.
pub proof fn lemma_join_one_line(parts: Seq<Seq<char>>, sep: Seq<char>)
    requires
        one_line(sep),
        forall|i: int| 0 <= i < parts.len() ==> one_line(#[trigger] parts[i]),
    ensures
        one_line(join(parts, sep)),
    decreases parts.len(),
{
    if parts.len() > 1 {
        let init = parts.drop_last();
        assert forall|i: int| 0 <= i < init.len() implies one_line(#[trigger] init[i]) by {
            assert(init[i] == parts[i]);
        }
        lemma_join_one_line(init, sep);
        assert(one_line(parts[parts.len() - 1]));
    } else if parts.len() == 1 {
        assert(one_line(parts[0]));
    }
}

/// A declaration is one line of text where no text of the signature holds a
/// line break.
pub proof fn lemma_declaration_on_one_line(sig: SignatureView)
    requires
        all_on_one_line(sig),
    ensures
        one_line(emitted(sig)),
{
    reveal_strlit("export ");
    reveal_strlit("function ");
    reveal_strlit("<");
    reveal_strlit(">");
    reveal_strlit(" (");
    reveal_strlit(") : ");
    reveal_strlit("Promise<");
    reveal_strlit(";");
    reveal_strlit(", ");
    reveal_strlit(" & ");
    reveal_strlit(" extends ");
    reveal_strlit(":");
    let m = sig.generics;
    let written = rendered_constraints(m);
    assert forall|i: int| 0 <= i < written.len() implies one_line(#[trigger] written[i]) by {
        let c = m[i];
        let d = distinct(c.bounds);
        assert forall|k: int| 0 <= k < d.len() implies one_line(#[trigger] d[k]) by {
            lemma_distinct_contains(c.bounds, d[k]);
            assert(d.contains(d[k]));
            let j = choose|j: int| 0 <= j < c.bounds.len() && c.bounds[j] == d[k];
            assert(one_line(m[i].bounds[j]));
        }
        lemma_join_one_line(d, " & "@);
        assert(one_line(c.key));
    }
    lemma_join_one_line(written, ", "@);
    let ps = rendered_each(sig.parameters);
    assert forall|i: int| 0 <= i < ps.len() implies one_line(#[trigger] ps[i]) by {
        assert(one_line(sig.parameters[i].name) && one_line(sig.parameters[i].ty));
    }
    lemma_join_one_line(ps, ", "@);
    assert(one_line(generic_clause(m)));
    assert(one_line(rendered_return(sig.is_async, sig.return_type)));
    assert(one_line(declaration_head(sig)));
}

} // verus!
