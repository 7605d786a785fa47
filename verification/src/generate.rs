//! The test-variant generator: walks a function's parameter list, asks a
//! resolver for each parameter's value expression, falls back to the
//! declared type's default-constructor call, and assembles the derived
//! test functions.

use vstd::prelude::*;
use crate::expr::{CaseArg, RsTestError, exprs_views, parse_expression, parsed_expr};
use crate::parse::{NestedMeta, ParametrizeInfo, cases_views, first_payload_err, payload_ok,
    spec_args, spec_cases, strings_views};
use crate::render::{dec_rep, push_dec};
use crate::resolver::{Resolver, lookup, zip_views};

verus! {

/// One parameter of the target declaration: a simple name binding with
/// an optional mutability qualifier and its declared type's text, or a
/// pattern the engine does not support (destructuring, a receiver).
pub enum FnParam {
    Plain { name: String, mutable: bool, ty: String },
    Complex,
}

/// The target declaration: a function with its name, the attributes to
/// pass through, and its ordered parameter list.
pub struct ItemFn {
    pub name: String,
    pub attrs: Vec<String>,
    pub params: Vec<FnParam>,
}

/// The annotated item: a function declaration, or anything else.
pub enum Item {
    Fn(ItemFn),
    Other,
}

/// One generated test function: its name, the attributes passed through
/// from the original, one binding statement per original parameter in
/// declaration order, and the call arguments for invoking the original.
/// The plain entry point nests the original declaration inside the
/// variant; the parametrized one re-emits it separately.
pub struct TestVariant {
    pub name: String,
    pub attrs: Vec<String>,
    pub bindings: Vec<String>,
    pub call_args: Vec<String>,
    pub embeds_original: bool,
}

/// What the parametrized entry point produces: the original declaration
/// once, under a test-only gate, followed by the variants in case order.
pub struct GeneratedUnit {
    pub gated_original: bool,
    pub variants: Vec<TestVariant>,
}

/// What the plain entry point produces: a generated test, or the input
/// re-emitted unchanged when the annotated item is not a function.
pub enum RsTestOutput {
    Test(TestVariant),
    PassThrough,
}

/// The default fallback: an unresolved parameter is initialized by a
/// zero-argument default-constructor call on its declared type.
pub open spec fn default_call_source(ty: Seq<char>) -> Seq<char> {
    ty + "::default()"@
}

/// The text of one binding statement.
pub open spec fn binding_line(name: Seq<char>, expr: Seq<char>) -> Seq<char> {
    "let "@ + name + " = "@ + expr + ";"@
}

/// The binding statement for a parameter under a resolver: the resolved
/// expression if any, else the parsed default-constructor call on the
/// declared type, else nothing (that call text was not a valid
/// expression).
pub open spec fn spec_binding(name: Seq<char>, ty: Seq<char>, es: Seq<(Seq<char>, Seq<char>)>) -> Option<
    Seq<char>,
> {
    match lookup(es, name) {
        Some(e) => Some(binding_line(name, e)),
        None => match parsed_expr(default_call_source(ty)) {
            Some(d) => Some(binding_line(name, d)),
            None => None,
        },
    }
}

/// The name of a simple parameter.
pub open spec fn param_name(p: FnParam) -> Seq<char> {
    match p {
        FnParam::Plain { name, .. } => name@,
        FnParam::Complex => Seq::empty(),
    }
}

/// The declared type of a simple parameter.
pub open spec fn param_ty(p: FnParam) -> Seq<char> {
    match p {
        FnParam::Plain { ty, .. } => ty@,
        FnParam::Complex => Seq::empty(),
    }
}

/// Whether a parameter can be bound under a resolver.
pub open spec fn param_ok(p: FnParam, es: Seq<(Seq<char>, Seq<char>)>) -> bool {
    p is Plain && spec_binding(param_name(p), param_ty(p), es) is Some
}

/// The binding statement of a bindable parameter.
pub open spec fn param_binding(p: FnParam, es: Seq<(Seq<char>, Seq<char>)>) -> Seq<char> {
    spec_binding(param_name(p), param_ty(p), es)->0
}

/// The error a parameter fails with: an unsupported pattern is reported
/// as such, a name whose default call does not parse as an expression
/// fails the expression parser.
pub open spec fn fail_err(p: FnParam) -> RsTestError {
    match p {
        FnParam::Plain { .. } => RsTestError::UnknownError,
        FnParam::Complex => RsTestError::InvalidParameterPattern,
    }
}

/// Whether every parameter can be bound under a resolver.
pub open spec fn bindings_all_ok(params: Seq<FnParam>, es: Seq<(Seq<char>, Seq<char>)>) -> bool {
    forall|k: int| 0 <= k < params.len() ==> param_ok(params[k], es)
}

/// The generator fails with the first unbindable parameter's error.
pub open spec fn bind_failure(
    params: Seq<FnParam>,
    es: Seq<(Seq<char>, Seq<char>)>,
    e: RsTestError,
) -> bool {
    exists|k: int|
        0 <= k < params.len() && !param_ok(params[k], es) && (forall|j: int|
            0 <= j < k ==> param_ok(params[j], es)) && e == fail_err(params[k])
}

/// A variant's bindings and call arguments follow the parameter list in
/// declaration order.
pub open spec fn variant_bound(
    v: TestVariant,
    params: Seq<FnParam>,
    es: Seq<(Seq<char>, Seq<char>)>,
) -> bool {
    &&& v.bindings@.len() == params.len()
    &&& (forall|k: int| 0 <= k < params.len() ==> v.bindings@[k]@ == param_binding(params[k], es))
    &&& v.call_args@.len() == params.len()
    &&& (forall|k: int| 0 <= k < params.len() ==> v.call_args@[k]@ == param_name(params[k]))
}

/// The name of the variant generated for the case with ordinal `i`.
pub open spec fn variant_name(base: Seq<char>, i: nat) -> Seq<char> {
    base + "_case_"@ + dec_rep(i)
}

/// The name a parameter binds, if it is a simple binding.
pub fn arg_name<'a>(arg: &'a FnParam) -> (r: Option<&'a String>)
    ensures
        match *arg {
            FnParam::Plain { ref name, .. } => r matches Some(s) && *s == *name,
            FnParam::Complex => r is None,
        },
{
    match arg {
        FnParam::Plain { name, .. } => Some(name),
        FnParam::Complex => None,
    }
}

/// The default expression for an unresolved parameter: a zero-argument
/// default-constructor call on its declared type.
pub fn default_fixture_name(a: &FnParam) -> (r: Option<CaseArg>)
    ensures
        match *a {
            FnParam::Plain { ref ty, .. } => match parsed_expr(default_call_source(ty@)) {
                Some(t) => r is Some && r->0@ == t,
                None => r is None,
            },
            FnParam::Complex => r is None,
        },
{
    match a {
        FnParam::Plain { ty, .. } => {
            let mut src = ty.clone();
            src.append("::default()");
            match parse_expression(src.as_str()) {
                Ok(c) => Some(c),
                Err(_) => None,
            }
        },
        FnParam::Complex => None,
    }
}

/// The binding statement for one parameter: `let <name> = <expression>;`,
/// where the expression comes from the resolver or the declared type's
/// default-constructor call.  The binding never repeats the parameter's
/// own mutability qualifier.  A parameter that is not a simple binding,
/// or whose default call is not a valid expression, yields nothing.
pub fn arg_2_fixture_str(arg: &FnParam, resolver: &Resolver) -> (r: Option<String>)
    ensures
        match *arg {
            FnParam::Plain { ref name, ref ty, .. } => {
                &&& (r is Some <==> spec_binding(name@, ty@, resolver@) is Some)
                &&& (r is Some ==> r->0@ == spec_binding(name@, ty@, resolver@)->0)
            },
            FnParam::Complex => r is None,
        },
{
    match arg {
        FnParam::Plain { name, .. } => {
            let fixture: Option<CaseArg> = match resolver.resolve(arg) {
                Some(e) => Some(e),
                None => default_fixture_name(arg),
            };
            match fixture {
                Some(f) => {
                    let mut line = String::from_str("let ");
                    line.append(name.as_str());
                    line.append(" = ");
                    line.append(f.text.as_str());
                    line.append(";");
                    proof {
                        assert(line@ =~= binding_line(name@, f@));
                    }
                    Some(line)
                },
                None => None,
            }
        },
        FnParam::Complex => None,
    }
}

fn fixtures_from(params: &Vec<FnParam>, i: usize, resolver: &Resolver) -> (r: Result<
    Vec<String>,
    RsTestError,
>)
    requires
        i <= params@.len(),
    ensures
        r is Ok <==> (forall|k: int| i <= k < params@.len() ==> param_ok(params@[k], resolver@)),
        r is Ok ==> r->Ok_0@.len() == params@.len() - i && (forall|k: int|
            i <= k < params@.len() ==> r->Ok_0@[k - i]@ == param_binding(params@[k], resolver@)),
        r is Err ==> exists|k: int|
            i <= k < params@.len() && !param_ok(params@[k], resolver@) && (forall|j: int|
                i <= j < k ==> param_ok(params@[j], resolver@)) && r->Err_0 == fail_err(params@[k]),
    decreases params@.len() - i,
{
    if i < params.len() {
        match arg_2_fixture_str(&params[i], resolver) {
            Some(line) => match fixtures_from(params, i + 1, resolver) {
                Ok(mut rest) => {
                    rest.insert(0, line);
                    Ok(rest)
                },
                Err(e) => {
                    proof {
                        let k = choose|k: int|
                            i + 1 <= k < params@.len() && !param_ok(params@[k], resolver@) && (
                            forall|j: int|
                                i + 1 <= j < k ==> param_ok(params@[j], resolver@)) && e == fail_err(params@[k]);
                        assert(i <= k < params@.len() && !param_ok(params@[k], resolver@) && (
                        forall|j: int| i <= j < k ==> param_ok(params@[j], resolver@)) && e == fail_err(
                            params@[k],
                        ));
                    }
                    Err(e)
                },
            },
            None => {
                let e = match &params[i] {
                    FnParam::Plain { .. } => RsTestError::UnknownError,
                    FnParam::Complex => RsTestError::InvalidParameterPattern,
                };
                proof {
                    assert(!param_ok(params@[i as int], resolver@) && (forall|j: int|
                        i <= j < i ==> param_ok(params@[j], resolver@)) && e == fail_err(
                        params@[i as int],
                    ));
                }
                Err(e)
            },
        }
    } else {
        Ok(Vec::new())
    }
}

/// The binding core: one binding statement per parameter, in declaration
/// order; the first parameter that cannot be bound aborts with its error.
pub fn fixtures(item_fn: &ItemFn, resolver: &Resolver) -> (r: Result<Vec<String>, RsTestError>)
    ensures
        r is Ok <==> bindings_all_ok(item_fn.params@, resolver@),
        r is Ok ==> r->Ok_0@.len() == item_fn.params@.len() && (forall|k: int|
            0 <= k < item_fn.params@.len() ==> r->Ok_0@[k]@ == param_binding(
                item_fn.params@[k],
                resolver@,
            )),
        r is Err ==> bind_failure(item_fn.params@, resolver@, r->Err_0),
{
    fixtures_from(&item_fn.params, 0, resolver)
}

fn arg_names_of(params: &Vec<FnParam>) -> (r: Option<Vec<String>>)
    ensures
        r is Some <==> (forall|k: int| 0 <= k < params@.len() ==> params@[k] is Plain),
        r is Some ==> r->0@.len() == params@.len() && (forall|k: int|
            0 <= k < params@.len() ==> r->0@[k]@ == param_name(params@[k])),
{
    let mut out: Vec<String> = Vec::new();
    let mut i: usize = 0;
    while i < params.len()
        invariant
            i <= params@.len(),
            out@.len() == i,
            forall|k: int| 0 <= k < i ==> params@[k] is Plain,
            forall|k: int| 0 <= k < i ==> out@[k]@ == param_name(params@[k]),
        decreases params@.len() - i,
    {
        match arg_name(&params[i]) {
            Some(name) => out.push(name.clone()),
            None => {
                return None;
            },
        }
        i = i + 1;
    }
    Some(out)
}

fn clone_strings(v: &Vec<String>) -> (r: Vec<String>)
    ensures
        r@ == v@,
{
    let mut out: Vec<String> = Vec::new();
    let mut i: usize = 0;
    while i < v.len()
        invariant
            i <= v@.len(),
            out@.len() == i,
            forall|k: int| 0 <= k < i ==> out@[k] == v@[k],
        decreases v@.len() - i,
    {
        out.push(v[i].clone());
        i = i + 1;
    }
    proof {
        assert(out@ =~= v@);
    }
    out
}

/// The plain entry point: derives one test from the annotated function.
/// The variant keeps the original's name and attributes, nests the
/// original declaration, binds every parameter from the resolver (with
/// the declared-type default fallback), and calls the original with the
/// bound names in declaration order.  An annotated item that is not a function
/// passes through unchanged.
pub fn rstest(item: &Item, resolver: &Resolver) -> (r: Result<RsTestOutput, RsTestError>)
    ensures
        match *item {
            Item::Fn(ref f) => {
                &&& (r is Ok <==> bindings_all_ok(f.params@, resolver@))
                &&& (r is Ok ==> (r->Ok_0 matches RsTestOutput::Test(v) && v.embeds_original
                    && v.name == f.name && v.attrs@ == f.attrs@ && variant_bound(
                    v,
                    f.params@,
                    resolver@,
                )))
                &&& (r is Err ==> bind_failure(f.params@, resolver@, r->Err_0))
            },
            Item::Other => r matches Ok(o) && o is PassThrough,
        },
{
    match item {
        Item::Fn(f) => match fixtures(f, resolver) {
            Ok(bindings) => match arg_names_of(&f.params) {
                Some(call_args) => Ok(
                    RsTestOutput::Test(
                        TestVariant {
                            name: f.name.clone(),
                            attrs: clone_strings(&f.attrs),
                            bindings,
                            call_args,
                            embeds_original: true,
                        },
                    ),
                ),
                None => unreached(),
            },
            Err(e) => Err(e),
        },
        Item::Other => Ok(RsTestOutput::PassThrough),
    }
}

/// The entries a case resolves through: the case's own positional
/// bindings first, then the fixture registry — case values always take
/// precedence over fixture defaults.
pub open spec fn case_entries(
    names: Seq<Seq<char>>,
    vals: Seq<Seq<char>>,
    reg: Seq<(Seq<char>, Seq<char>)>,
) -> Seq<(Seq<char>, Seq<char>)> {
    zip_views(names, vals) + reg
}

/// Every case from ordinal `lo` on can bind every parameter.
pub open spec fn cases_all_ok(
    params: Seq<FnParam>,
    names: Seq<Seq<char>>,
    cases: Seq<Seq<Seq<char>>>,
    reg: Seq<(Seq<char>, Seq<char>)>,
    lo: int,
) -> bool {
    forall|cj: int|
        lo <= cj < cases.len() ==> bindings_all_ok(
            params,
            case_entries(names, #[trigger] cases[cj], reg),
        )
}

/// The variants generated for the cases from ordinal `lo` on: one per
/// case, named with the case's ordinal, attributes passed through, and
/// bindings resolved case-first.
pub open spec fn variants_tail(
    vs: Seq<TestVariant>,
    f: ItemFn,
    names: Seq<Seq<char>>,
    cases: Seq<Seq<Seq<char>>>,
    reg: Seq<(Seq<char>, Seq<char>)>,
    lo: int,
) -> bool {
    &&& vs.len() == cases.len() - lo
    &&& (forall|k: int|
        #![trigger vs[k]]
        0 <= k < vs.len() ==> {
            &&& vs[k].name@ == variant_name(f.name@, (lo + k) as nat)
            &&& vs[k].attrs@ == f.attrs@
            &&& !vs[k].embeds_original
            &&& variant_bound(vs[k], f.params@, case_entries(names, cases[lo + k], reg))
        })
}

/// What the parametrized generator guarantees of its variants, case by
/// case: ordinal-suffixed names in source order, attribute pass-through,
/// and bindings resolved case-first.
pub open spec fn variants_follow_cases(
    vs: Seq<TestVariant>,
    f: ItemFn,
    names: Seq<Seq<char>>,
    cases: Seq<Seq<Seq<char>>>,
    reg: Seq<(Seq<char>, Seq<char>)>,
) -> bool {
    variants_tail(vs, f, names, cases, reg, 0)
}

/// The parametrized generator fails with the binding error of the first
/// case, from ordinal `lo` on, that cannot bind some parameter.
pub open spec fn gen_failure(
    params: Seq<FnParam>,
    names: Seq<Seq<char>>,
    cases: Seq<Seq<Seq<char>>>,
    reg: Seq<(Seq<char>, Seq<char>)>,
    lo: int,
    e: RsTestError,
) -> bool {
    exists|cj: int|
        #![trigger cases[cj]]
        lo <= cj < cases.len() && !bindings_all_ok(params, case_entries(names, cases[cj], reg))
            && (forall|cj2: int|
            lo <= cj2 < cj ==> bindings_all_ok(params, case_entries(names, #[trigger] cases[cj2], reg)))
            && bind_failure(params, case_entries(names, cases[cj], reg), e)
}

fn gen_cases_from(
    item_fn: &ItemFn,
    params: &ParametrizeInfo,
    registry: &Resolver,
    ci: usize,
) -> (r: Result<Vec<TestVariant>, RsTestError>)
    requires
        ci <= params.cases@.len(),
    ensures
        r is Ok <==> cases_all_ok(
            item_fn.params@,
            strings_views(params.args@),
            cases_views(params.cases@),
            registry@,
            ci as int,
        ),
        r is Ok ==> variants_tail(
            r->Ok_0@,
            *item_fn,
            strings_views(params.args@),
            cases_views(params.cases@),
            registry@,
            ci as int,
        ),
        r is Err ==> gen_failure(
            item_fn.params@,
            strings_views(params.args@),
            cases_views(params.cases@),
            registry@,
            ci as int,
            r->Err_0,
        ),
    decreases params.cases@.len() - ci,
{
    let ghost names = strings_views(params.args@);
    let ghost cviews = cases_views(params.cases@);
    if ci < params.cases.len() {
        let case_map = Resolver::new(&params.args, &params.cases[ci]);
        let resolver = case_map.chain(registry);
        let ghost es = case_entries(names, cviews[ci as int], registry@);
        proof {
            assert(cviews[ci as int] == exprs_views(params.cases@[ci as int].0@));
            assert(resolver@ == es);
        }
        match fixtures(item_fn, &resolver) {
            Ok(bindings) => match arg_names_of(&item_fn.params) {
                Some(call_args) => {
                    let mut name = item_fn.name.clone();
                    name.append("_case_");
                    push_dec(&mut name, ci);
                    proof {
                        assert(name@ =~= variant_name(item_fn.name@, ci as nat));
                    }
                    let v = TestVariant {
                        name,
                        attrs: clone_strings(&item_fn.attrs),
                        bindings,
                        call_args,
                        embeds_original: false,
                    };
                    match gen_cases_from(item_fn, params, registry, ci + 1) {
                        Ok(mut rest) => {
                            let ghost tail = rest@;
                            rest.insert(0, v);
                            proof {
                                assert forall|k: int| #![trigger rest@[k]]
                                    0 <= k < rest@.len() implies {
                                    &&& rest@[k].name@ == variant_name(
                                        item_fn.name@,
                                        (ci + k) as nat,
                                    )
                                    &&& rest@[k].attrs@ == item_fn.attrs@
                                    &&& !rest@[k].embeds_original
                                    &&& variant_bound(
                                        rest@[k],
                                        item_fn.params@,
                                        case_entries(names, cviews[ci + k], registry@),
                                    )
                                } by {
                                    if k == 0 {
                                        assert(rest@[0] == v);
                                    } else {
                                        assert(rest@[k] == tail[k - 1]);
                                    }
                                }
                            }
                            Ok(rest)
                        },
                        Err(e) => {
                            proof {
                                let cj = choose|cj: int|
                                    #![trigger cviews[cj]]
                                    ci + 1 <= cj < cviews.len() && !bindings_all_ok(
                                        item_fn.params@,
                                        case_entries(names, cviews[cj], registry@),
                                    ) && (forall|cj2: int|
                                        ci + 1 <= cj2 < cj ==> bindings_all_ok(
                                            item_fn.params@,
                                            case_entries(names, #[trigger] cviews[cj2], registry@),
                                        )) && bind_failure(
                                        item_fn.params@,
                                        case_entries(names, cviews[cj], registry@),
                                        e,
                                    );
                                assert(bindings_all_ok(item_fn.params@, es));
                                assert(forall|cj2: int|
                                    ci <= cj2 < cj ==> bindings_all_ok(
                                        item_fn.params@,
                                        case_entries(names, #[trigger] cviews[cj2], registry@),
                                    ));
                                assert(gen_failure(
                                    item_fn.params@,
                                    names,
                                    cviews,
                                    registry@,
                                    ci as int,
                                    e,
                                ));
                            }
                            Err(e)
                        },
                    }
                },
                None => {
                    proof {
                        assert forall|k: int|
                            0 <= k < item_fn.params@.len() implies item_fn.params@[k]
                            is Plain by {
                            assert(param_ok(item_fn.params@[k], resolver@));
                        }
                        assert(false);
                    }
                    unreached()
                },
            },
            Err(e) => {
                proof {
                    assert(!bindings_all_ok(item_fn.params@, es));
                    assert(bind_failure(item_fn.params@, es, e));
                    assert(gen_failure(item_fn.params@, names, cviews, registry@, ci as int, e));
                }
                Err(e)
            },
        }
    } else {
        let r: Vec<TestVariant> = Vec::new();
        proof {
            assert(r@.len() == cviews.len() - ci);
        }
        Ok(r)
    }
}

/// The parametrized generator: re-emits the original declaration once
/// under a test-only gate, then derives one variant per case, in source
/// order, named `<original>_case_<ordinal>`.  Each case's values take
/// precedence over the fixture registry; unresolved parameters fall back
/// to the declared-type default.
pub fn add_parametrize_cases(
    item_fn: &ItemFn,
    params: &ParametrizeInfo,
    registry: &Resolver,
) -> (r: Result<GeneratedUnit, RsTestError>)
    ensures
        r is Ok <==> cases_all_ok(
            item_fn.params@,
            strings_views(params.args@),
            cases_views(params.cases@),
            registry@,
            0,
        ),
        r is Ok ==> r->Ok_0.gated_original && variants_follow_cases(
            r->Ok_0.variants@,
            *item_fn,
            strings_views(params.args@),
            cases_views(params.cases@),
            registry@,
        ),
        r is Err ==> gen_failure(
            item_fn.params@,
            strings_views(params.args@),
            cases_views(params.cases@),
            registry@,
            0,
            r->Err_0,
        ),
{
    match gen_cases_from(item_fn, params, registry, 0) {
        Ok(variants) => Ok(GeneratedUnit { gated_original: true, variants }),
        Err(e) => Err(e),
    }
}

/// The parametrized entry point: parses the attribute payload, rejects
/// an empty payload outright, propagates the first parse error of a
/// `case(...)` argument, rejects an annotated item that is not a
/// function, and otherwise generates the variants.  Case values resolve
/// ahead of the fixture registry.
pub fn rstest_parametrize(item: &Item, metas: &Vec<NestedMeta>, registry: &Resolver) -> (r: Result<
    GeneratedUnit,
    RsTestError,
>)
    ensures
        metas@.len() == 0 ==> (r matches Err(e) && e is UnknownError),
        metas@.len() > 0 && !payload_ok(metas@) ==> (r matches Err(e) && e == first_payload_err(
            metas@,
        )),
        metas@.len() > 0 && payload_ok(metas@) && item is Other ==> (r matches Err(e)
            && e is StructuralMismatch),
        metas@.len() > 0 && payload_ok(metas@) ==> match *item {
            Item::Fn(ref f) => {
                &&& (r is Ok <==> cases_all_ok(
                    f.params@,
                    spec_args(metas@),
                    spec_cases(metas@),
                    registry@,
                    0,
                ))
                &&& (r is Ok ==> r->Ok_0.gated_original && variants_follow_cases(
                    r->Ok_0.variants@,
                    *f,
                    spec_args(metas@),
                    spec_cases(metas@),
                    registry@,
                ))
                &&& (r is Err ==> gen_failure(
                    f.params@,
                    spec_args(metas@),
                    spec_cases(metas@),
                    registry@,
                    0,
                    r->Err_0,
                ))
            },
            Item::Other => true,
        },
{
    let info = match ParametrizeInfo::parse(metas) {
        Ok(info) => info,
        Err(e) => {
            return Err(e);
        },
    };
    match item {
        Item::Fn(f) => add_parametrize_cases(f, &info, registry),
        Item::Other => Err(RsTestError::StructuralMismatch),
    }
}

} // verus!
