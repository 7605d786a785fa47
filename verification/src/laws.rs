//! The guarantees the engine gives as a whole: resolution precedence,
//! the default fallback, positional pairing, ordinal stability, and
//! mutability stripping.

use vstd::prelude::*;
use crate::expr::parsed_expr;
use crate::generate::{
    FnParam, binding_line, case_entries, default_call_source, param_binding, param_ok,
    spec_binding,
};
use crate::parse::{
    Meta, NestedMeta, arg_contrib, case_contrib, is_arg_item, is_case_item, spec_args, spec_cases,
};
use crate::resolver::{lemma_lookup_skip, lookup, zip_views};

verus! {

/// Chained resolution short-circuits on the first match: a chain looks
/// the name up in the left entries first and falls back to the right
/// entries only when the left has no entry for it.
pub proof fn lemma_lookup_append(
    a: Seq<(Seq<char>, Seq<char>)>,
    b: Seq<(Seq<char>, Seq<char>)>,
    name: Seq<char>,
)
    ensures
        lookup(a + b, name) == (if lookup(a, name) is Some {
            lookup(a, name)
        } else {
            lookup(b, name)
        }),
    decreases a.len(),
{
    if a.len() == 0 {
        assert(a + b =~= b);
    } else {
        assert((a + b)[0] == a[0]);
        if a[0].0 == name {
        } else {
            lemma_lookup_append(a.drop_first(), b, name);
            assert((a + b).drop_first() =~= a.drop_first() + b);
        }
    }
}

/// Composing resolvers is associative: however a chain of three is
/// parenthesized, the entries stand in the same order and every lookup
/// agrees.
pub proof fn lemma_chain_associative(
    a: Seq<(Seq<char>, Seq<char>)>,
    b: Seq<(Seq<char>, Seq<char>)>,
    c: Seq<(Seq<char>, Seq<char>)>,
    name: Seq<char>,
)
    ensures
        (a + b) + c == a + (b + c),
        lookup((a + b) + c, name) == lookup(a + (b + c), name),
{
    assert((a + b) + c =~= a + (b + c));
}

/// Binding precedence: where a case binds a name to a value, the
/// generated binding uses that value, never the fixture expression —
/// the case entries stand ahead of the registry, so the case always
/// wins, whatever the parameter's declared type.
pub proof fn lemma_case_overrides_fixture(
    case_es: Seq<(Seq<char>, Seq<char>)>,
    fixture_es: Seq<(Seq<char>, Seq<char>)>,
    x: Seq<char>,
    ty: Seq<char>,
    e: Seq<char>,
)
    requires
        lookup(case_es, x) == Some(e),
    ensures
        lookup(case_es + fixture_es, x) == Some(e),
        spec_binding(x, ty, case_es + fixture_es) == Some(binding_line(x, e)),
{
    lemma_lookup_append(case_es, fixture_es, x);
}

/// Default fallback: a parameter no resolver entry matches is bound to
/// the parsed zero-argument default-constructor call on its declared
/// type, and to nothing at all when that call text is not a valid
/// expression.
pub proof fn lemma_default_fallback(x: Seq<char>, ty: Seq<char>, es: Seq<(Seq<char>, Seq<char>)>)
    requires
        lookup(es, x) is None,
    ensures
        spec_binding(x, ty, es) == (match parsed_expr(default_call_source(ty)) {
            Some(d) => Some(binding_line(x, d)),
            None => None::<Seq<char>>,
        }),
{
}

/// Positional pairing: the i-th declared argument name is bound to the
/// i-th case value — position, not name, links them.  Earlier declared
/// names must differ, since the first entry for a name wins.
pub proof fn lemma_positional_pairing(
    names: Seq<Seq<char>>,
    vals: Seq<Seq<char>>,
    reg: Seq<(Seq<char>, Seq<char>)>,
    ty: Seq<char>,
    i: int,
)
    requires
        0 <= i < names.len(),
        i < vals.len(),
        forall|k: int| 0 <= k < i ==> names[k] != names[i],
    ensures
        lookup(zip_views(names, vals), names[i]) == Some(vals[i]),
        spec_binding(names[i], ty, case_entries(names, vals, reg)) == Some(
            binding_line(names[i], vals[i]),
        ),
{
    let zv = zip_views(names, vals);
    lemma_lookup_skip(zv, names[i], i);
    assert(zv.skip(i)[0] == zv[i]);
    lemma_case_overrides_fixture(zv, reg, names[i], ty, vals[i]);
}

/// Positional pairing, in the shape of the swap: with two distinct
/// declared names and two case values, each name takes the value in its
/// own position, so swapping the declared order without swapping the
/// values changes which value binds to which name.
pub proof fn lemma_swapping_names_swaps_values(
    a: Seq<char>,
    b: Seq<char>,
    v1: Seq<char>,
    v2: Seq<char>,
    reg: Seq<(Seq<char>, Seq<char>)>,
    ty: Seq<char>,
)
    requires
        a != b,
    ensures
        spec_binding(a, ty, case_entries(seq![a, b], seq![v1, v2], reg)) == Some(
            binding_line(a, v1),
        ),
        spec_binding(b, ty, case_entries(seq![a, b], seq![v1, v2], reg)) == Some(
            binding_line(b, v2),
        ),
        spec_binding(b, ty, case_entries(seq![b, a], seq![v1, v2], reg)) == Some(
            binding_line(b, v1),
        ),
        spec_binding(a, ty, case_entries(seq![b, a], seq![v1, v2], reg)) == Some(
            binding_line(a, v2),
        ),
{
    lemma_positional_pairing(seq![a, b], seq![v1, v2], reg, ty, 0);
    lemma_positional_pairing(seq![a, b], seq![v1, v2], reg, ty, 1);
    lemma_positional_pairing(seq![b, a], seq![v1, v2], reg, ty, 0);
    lemma_positional_pairing(seq![b, a], seq![v1, v2], reg, ty, 1);
}

/// Appending one payload item extends the parsed cases by exactly that
/// item's contribution.
pub proof fn lemma_cases_snoc(s: Seq<NestedMeta>, x: NestedMeta)
    ensures
        spec_cases(s.push(x)) == spec_cases(s) + case_contrib(x),
    decreases s.len(),
{
    if s.len() == 0 {
        assert(s.push(x)[0] == x);
        assert(s.push(x).drop_first() =~= s);
        assert(spec_cases(s.push(x)) =~= spec_cases(s) + case_contrib(x));
    } else {
        lemma_cases_snoc(s.drop_first(), x);
        assert(s.push(x)[0] == s[0]);
        assert(s.push(x).drop_first() =~= s.drop_first().push(x));
        assert(spec_cases(s.push(x)) =~= spec_cases(s) + case_contrib(x));
    }
}

/// Appending one payload item extends the parsed argument names by
/// exactly that item's contribution.
pub proof fn lemma_args_snoc(s: Seq<NestedMeta>, x: NestedMeta)
    ensures
        spec_args(s.push(x)) == spec_args(s) + arg_contrib(x),
    decreases s.len(),
{
    if s.len() == 0 {
        assert(s.push(x)[0] == x);
        assert(s.push(x).drop_first() =~= s);
        assert(spec_args(s.push(x)) =~= spec_args(s) + arg_contrib(x));
    } else {
        lemma_args_snoc(s.drop_first(), x);
        assert(s.push(x)[0] == s[0]);
        assert(s.push(x).drop_first() =~= s.drop_first().push(x));
        assert(spec_args(s.push(x)) =~= spec_args(s) + arg_contrib(x));
    }
}

/// Case ordinal stability, in full: the parsed cases of any payload are
/// exactly the parsed cases of its `case(...)` items alone, in their
/// relative source order — however many other items are interspersed,
/// the ordinals assigned downstream match source encounter order.
pub proof fn lemma_cases_depend_only_on_case_items(metas: Seq<NestedMeta>)
    ensures
        spec_cases(metas) == spec_cases(metas.filter(|m: NestedMeta| is_case_item(m))),
    decreases metas.len(),
{
    reveal(Seq::filter);
    if metas.len() == 0 {
    } else {
        let s = metas.drop_last();
        let x = metas.last();
        lemma_cases_depend_only_on_case_items(s);
        assert(metas =~= s.push(x));
        lemma_cases_snoc(s, x);
        if is_case_item(x) {
            lemma_cases_snoc(s.filter(|m: NestedMeta| is_case_item(m)), x);
        } else {
            assert(case_contrib(x) =~= Seq::<Seq<Seq<char>>>::empty());
            assert(spec_cases(s) + case_contrib(x) =~= spec_cases(s));
        }
    }
}

/// The companion for the declared names: the parsed argument names of
/// any payload are exactly those of its bare-name items alone, in their
/// relative source order.
pub proof fn lemma_args_depend_only_on_name_items(metas: Seq<NestedMeta>)
    ensures
        spec_args(metas) == spec_args(metas.filter(|m: NestedMeta| is_arg_item(m))),
    decreases metas.len(),
{
    reveal(Seq::filter);
    if metas.len() == 0 {
    } else {
        let s = metas.drop_last();
        let x = metas.last();
        lemma_args_depend_only_on_name_items(s);
        assert(metas =~= s.push(x));
        lemma_args_snoc(s, x);
        if is_arg_item(x) {
            lemma_args_snoc(s.filter(|m: NestedMeta| is_arg_item(m)), x);
        } else {
            assert(arg_contrib(x) =~= Seq::<Seq<char>>::empty());
            assert(spec_args(s) + arg_contrib(x) =~= spec_args(s));
        }
    }
}

/// Case ordinal stability, the pointed form: a bare argument-name item
/// standing among the `case(...)` items does not disturb the cases.
pub proof fn lemma_cases_ignore_arg_items(a: Seq<NestedMeta>, b: Seq<NestedMeta>, id: String)
    ensures
        spec_cases(a + seq![NestedMeta::Meta(Meta::Word(id))] + b) == spec_cases(
            a + b,
        ),
    decreases a.len(),
{
    let w = NestedMeta::Meta(Meta::Word(id));
    if a.len() == 0 {
        assert(a + seq![w] + b =~= seq![w] + b);
        assert((seq![w] + b)[0] == w);
        assert((seq![w] + b).drop_first() =~= b);
        assert(a + b =~= b);
        assert(spec_cases(seq![w] + b) =~= spec_cases(b));
    } else {
        lemma_cases_ignore_arg_items(a.drop_first(), b, id);
        assert((a + seq![w] + b)[0] == a[0]);
        assert((a + b)[0] == a[0]);
        assert((a + seq![w] + b).drop_first() =~= a.drop_first() + seq![w] + b);
        assert((a + b).drop_first() =~= a.drop_first() + b);
        assert(spec_cases(a + seq![w] + b) =~= spec_cases(a + b));
    }
}

/// Mutability stripping: two parameters that bind the same name with the
/// same declared type, one declared mutable and one not, produce the
/// same binding statement — the injected binding never inherits the
/// parameter's own mutability qualifier.
pub proof fn lemma_mutability_stripped(
    p1: FnParam,
    p2: FnParam,
    es: Seq<(Seq<char>, Seq<char>)>,
)
    requires
        p1 is Plain,
        p2 is Plain,
        p1->name@ == p2->name@,
        p1->ty@ == p2->ty@,
    ensures
        param_ok(p1, es) == param_ok(p2, es),
        param_ok(p1, es) ==> param_binding(p1, es) == param_binding(p2, es),
{
}

} // verus!
