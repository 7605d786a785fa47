//! The case parser: turns raw attribute payload items into structured
//! case data — ordered argument names and ordered cases of expression
//! fragments, in encounter order.

use vstd::prelude::*;
use crate::expr::{CaseArg, RsTestError, exprs_views, parse_expression, parsed_expr};

verus! {

/// A literal token of an attribute payload.  A string literal keeps both
/// its source text (quotes included) and its contents, because the
/// verbatim-unwrap form re-parses the contents, not the literal syntax.
pub enum LitValue {
    Str { source: String, value: String },
    Other { source: String },
}

/// A named list item of an attribute payload, such as `case(...)`.
pub struct MetaList {
    pub name: String,
    pub nested: Vec<NestedMeta>,
}

/// A structured attribute payload item.
pub enum Meta {
    Word(String),
    List(MetaList),
    NameValue { name: String, lit: LitValue },
}

/// One element of an attribute payload: a structured item or a literal.
pub enum NestedMeta {
    Meta(Meta),
    Literal(LitValue),
}

/// The source text of a literal token.
pub open spec fn lit_source(l: LitValue) -> Seq<char> {
    match l {
        LitValue::Str { source, .. } => source@,
        LitValue::Other { source } => source@,
    }
}

/// The parse of one piece of expression text: its normalized rendering,
/// or `UnknownError` where it is not a valid expression.
pub open spec fn expr_result(s: Seq<char>) -> Result<Seq<char>, RsTestError> {
    match parsed_expr(s) {
        Some(t) => Ok(t),
        None => Err(RsTestError::UnknownError),
    }
}

/// What one case argument parses to.  A literal is re-parsed from its
/// source text; a bare word is an expression reference; `Unwrap("...")`
/// re-parses the string's contents; every other shape is rejected.
pub open spec fn spec_case_arg(a: NestedMeta) -> Result<Seq<char>, RsTestError> {
    match a {
        NestedMeta::Literal(l) => expr_result(lit_source(l)),
        NestedMeta::Meta(m) => match m {
            Meta::Word(term) => expr_result(term@),
            Meta::List(l) => if l.name@ == "Unwrap"@ {
                if l.nested@.len() > 0 {
                    match l.nested@[0] {
                        NestedMeta::Literal(LitValue::Str { value, .. }) => expr_result(value@),
                        _ => Err(RsTestError::UnknownError),
                    }
                } else {
                    Err(RsTestError::UnknownError)
                }
            } else {
                Err(RsTestError::UnknownError)
            },
            Meta::NameValue { .. } => Err(RsTestError::UnknownError),
        },
    }
}

/// Parses one case argument into an expression fragment.
pub fn parse_case_arg(a: &NestedMeta) -> (r: Result<CaseArg, RsTestError>)
    ensures
        r is Ok <==> spec_case_arg(*a) is Ok,
        r is Ok ==> r->Ok_0@ == spec_case_arg(*a)->Ok_0,
        r is Err ==> r->Err_0 == spec_case_arg(*a)->Err_0,
{
    match a {
        NestedMeta::Literal(l) => match l {
            LitValue::Str { source, .. } => parse_expression(source.as_str()),
            LitValue::Other { source } => parse_expression(source.as_str()),
        },
        NestedMeta::Meta(m) => match m {
            Meta::Word(term) => parse_expression(term.as_str()),
            Meta::List(l) => {
                let unwrap_kw = String::from_str("Unwrap");
                if l.name == unwrap_kw {
                    if l.nested.len() > 0 {
                        match &l.nested[0] {
                            NestedMeta::Literal(LitValue::Str { value, .. }) => parse_expression(
                                value.as_str(),
                            ),
                            _ => Err(RsTestError::UnknownError),
                        }
                    } else {
                        Err(RsTestError::UnknownError)
                    }
                } else {
                    Err(RsTestError::UnknownError)
                }
            },
            Meta::NameValue { .. } => Err(RsTestError::UnknownError),
        },
    }
}

/// One case: an ordered sequence of expression fragments, one per
/// declared parametrize argument, in declaration order.
pub struct TestCase(pub Vec<CaseArg>);

/// Whether every argument of a `case(...)` group parses.
pub open spec fn case_all_ok(ns: Seq<NestedMeta>) -> bool {
    forall|k: int| 0 <= k < ns.len() ==> spec_case_arg(ns[k]) is Ok
}

/// The parsed values of a `case(...)` group, position by position.
pub open spec fn case_values(ns: Seq<NestedMeta>) -> Seq<Seq<char>> {
    Seq::new(ns.len(), |k: int| spec_case_arg(ns[k])->Ok_0)
}

/// The error of the first argument in a group that fails to parse.
pub open spec fn first_arg_err(ns: Seq<NestedMeta>) -> RsTestError
    decreases ns.len(),
{
    if ns.len() == 0 {
        RsTestError::UnknownError
    } else if spec_case_arg(ns[0]) is Err {
        spec_case_arg(ns[0])->Err_0
    } else {
        first_arg_err(ns.drop_first())
    }
}

fn parse_case_args_from(ns: &Vec<NestedMeta>, i: usize) -> (r: Result<Vec<CaseArg>, RsTestError>)
    requires
        i <= ns@.len(),
    ensures
        r is Ok <==> (forall|k: int| i <= k < ns@.len() ==> spec_case_arg(ns@[k]) is Ok),
        r is Ok ==> r->Ok_0@.len() == ns@.len() - i && (forall|k: int|
            i <= k < ns@.len() ==> r->Ok_0@[k - i]@ == spec_case_arg(ns@[k])->Ok_0),
        r is Err ==> r->Err_0 == first_arg_err(ns@.skip(i as int)),
    decreases ns@.len() - i,
{
    if i < ns.len() {
        proof {
            assert(ns@.skip(i as int).drop_first() =~= ns@.skip(i + 1));
            assert(ns@.skip(i as int)[0] == ns@[i as int]);
        }
        match parse_case_arg(&ns[i]) {
            Ok(c) => match parse_case_args_from(ns, i + 1) {
                Ok(mut rest) => {
                    rest.insert(0, c);
                    Ok(rest)
                },
                Err(e) => Err(e),
            },
            Err(e) => Err(e),
        }
    } else {
        Ok(Vec::new())
    }
}

/// Parses a named attribute list as one case.  A list named anything but
/// `case` is reported with its name; a case argument that fails to parse
/// aborts the whole group, first failure first.
impl TestCase {
    pub fn try_from(l: &MetaList) -> (r: Result<TestCase, RsTestError>)
        ensures
            l.name@ != "case"@ ==> (r matches Err(e) && e matches
                RsTestError::UnknownParameterOption(s) && s@ == l.name@),
            l.name@ == "case"@ ==> {
                &&& r is Ok <==> case_all_ok(l.nested@)
                &&& r is Ok ==> r->Ok_0.0@.len() == l.nested@.len() && (forall|k: int|
                    0 <= k < l.nested@.len() ==> r->Ok_0.0@[k]@ == spec_case_arg(
                        l.nested@[k],
                    )->Ok_0)
                &&& r is Err ==> r->Err_0 == first_arg_err(l.nested@)
            },
    {
        let case_kw = String::from_str("case");
        if l.name == case_kw {
            proof {
                assert(l.nested@.skip(0) =~= l.nested@);
            }
            match parse_case_args_from(&l.nested, 0) {
                Ok(args) => Ok(TestCase(args)),
                Err(e) => Err(e),
            }
        } else {
            Err(RsTestError::UnknownParameterOption(l.name.clone()))
        }
    }
}

fn from_texts_from(texts: &Vec<String>, i: usize) -> (r: Result<Vec<CaseArg>, RsTestError>)
    requires
        i <= texts@.len(),
    ensures
        r is Ok <==> (forall|k: int| i <= k < texts@.len() ==> parsed_expr(texts@[k]@) is Some),
        r is Ok ==> r->Ok_0@.len() == texts@.len() - i && (forall|k: int|
            i <= k < texts@.len() ==> r->Ok_0@[k - i]@ == parsed_expr(texts@[k]@)->0),
        r is Err ==> r->Err_0 is UnknownError,
    decreases texts@.len() - i,
{
    if i < texts.len() {
        match parse_expression(texts[i].as_str()) {
            Ok(c) => match from_texts_from(texts, i + 1) {
                Ok(mut rest) => {
                    rest.insert(0, c);
                    Ok(rest)
                },
                Err(e) => Err(e),
            },
            Err(e) => Err(e),
        }
    } else {
        Ok(Vec::new())
    }
}

impl TestCase {
    /// Builds a case straight from expression texts, position by
    /// position; any text that is not a valid expression fails the
    /// whole case.
    pub fn from(texts: &Vec<String>) -> (r: Result<TestCase, RsTestError>)
        ensures
            r is Ok <==> (forall|k: int|
                0 <= k < texts@.len() ==> parsed_expr(texts@[k]@) is Some),
            r is Ok ==> r->Ok_0.0@.len() == texts@.len() && (forall|k: int|
                0 <= k < texts@.len() ==> r->Ok_0.0@[k]@ == parsed_expr(texts@[k]@)->0),
            r is Err ==> r->Err_0 is UnknownError,
    {
        match from_texts_from(texts, 0) {
            Ok(args) => Ok(TestCase(args)),
            Err(e) => Err(e),
        }
    }
}

/// One recognized element of a parametrize payload: an argument name to
/// be parametrized, or one case of values.
pub enum ParametrizeElement {
    Arg(String),
    Case(TestCase),
}

/// Classifies one structured payload item: a bare word declares an
/// argument; a list named `case` whose arguments all parse declares a
/// case; a `case` list with an unparseable argument aborts the whole
/// payload with that argument's error; every other item is silently
/// dropped, so unrelated annotations can coexist.
pub fn parse_meta_item(meta: &Meta) -> (r: Result<Option<ParametrizeElement>, RsTestError>)
    ensures
        match *meta {
            Meta::Word(ref id) => (r matches Ok(o) && o matches Some(ParametrizeElement::Arg(s))
                && s == *id),
            Meta::List(ref l) => if l.name@ == "case"@ {
                if case_all_ok(l.nested@) {
                    r matches Ok(o) && o matches Some(ParametrizeElement::Case(tc)) && tc.0@.len()
                        == l.nested@.len() && (forall|k: int|
                        0 <= k < l.nested@.len() ==> tc.0@[k]@ == spec_case_arg(
                            l.nested@[k],
                        )->Ok_0)
                } else {
                    r matches Err(e) && e == first_arg_err(l.nested@)
                }
            } else {
                r matches Ok(o) && o is None
            },
            Meta::NameValue { .. } => (r matches Ok(o) && o is None),
        },
{
    match meta {
        Meta::Word(id) => Ok(Some(ParametrizeElement::Arg(id.clone()))),
        Meta::List(l) => {
            let case_kw = String::from_str("case");
            if l.name == case_kw {
                match TestCase::try_from(l) {
                    Ok(tc) => Ok(Some(ParametrizeElement::Case(tc))),
                    Err(e) => Err(e),
                }
            } else {
                Ok(None)
            }
        },
        Meta::NameValue { .. } => Ok(None),
    }
}

/// Keeps the structured items of a payload and drops bare literals.
pub fn extract_meta(nm: &NestedMeta) -> (r: Option<&Meta>)
    ensures
        match *nm {
            NestedMeta::Meta(ref m) => r matches Some(x) && *x == *m,
            NestedMeta::Literal(_) => r is None,
        },
{
    match nm {
        NestedMeta::Meta(m) => Some(m),
        NestedMeta::Literal(_) => None,
    }
}

/// Whether a payload item declares an argument name.
pub open spec fn is_arg_item(m: NestedMeta) -> bool {
    m matches NestedMeta::Meta(Meta::Word(_))
}

/// Whether a payload item is a `case(...)` group.
pub open spec fn is_case_item(m: NestedMeta) -> bool {
    m matches NestedMeta::Meta(Meta::List(l)) && l.name@ == "case"@
}

/// What one payload item contributes to the declared argument names.
pub open spec fn arg_contrib(m: NestedMeta) -> Seq<Seq<char>> {
    match m {
        NestedMeta::Meta(Meta::Word(id)) => seq![id@],
        _ => Seq::empty(),
    }
}

/// What one payload item contributes to the cases.
pub open spec fn case_contrib(m: NestedMeta) -> Seq<Seq<Seq<char>>> {
    match m {
        NestedMeta::Meta(Meta::List(l)) => if l.name@ == "case"@ {
            seq![case_values(l.nested@)]
        } else {
            Seq::empty()
        },
        _ => Seq::empty(),
    }
}

/// The parse error a payload item raises, if any: only a `case(...)`
/// group with an argument that fails to parse raises one.
pub open spec fn item_err(m: NestedMeta) -> Option<RsTestError> {
    match m {
        NestedMeta::Meta(Meta::List(l)) => if l.name@ == "case"@ && !case_all_ok(l.nested@) {
            Some(first_arg_err(l.nested@))
        } else {
            None
        },
        _ => None,
    }
}

/// Whether every item of a payload parses: no `case(...)` group holds
/// an unparseable argument.
pub open spec fn payload_ok(metas: Seq<NestedMeta>) -> bool
    decreases metas.len(),
{
    metas.len() == 0 || (item_err(metas[0]) is None && payload_ok(metas.drop_first()))
}

/// The first item error of a payload, in encounter order.
pub open spec fn first_payload_err(metas: Seq<NestedMeta>) -> RsTestError
    decreases metas.len(),
{
    if metas.len() == 0 {
        RsTestError::UnknownError
    } else {
        match item_err(metas[0]) {
            Some(e) => e,
            None => first_payload_err(metas.drop_first()),
        }
    }
}

/// The argument names a payload declares, in encounter order.
pub open spec fn spec_args(metas: Seq<NestedMeta>) -> Seq<Seq<char>>
    decreases metas.len(),
{
    if metas.len() == 0 {
        Seq::empty()
    } else {
        arg_contrib(metas[0]) + spec_args(metas.drop_first())
    }
}

/// The cases a payload declares, in encounter order.
pub open spec fn spec_cases(metas: Seq<NestedMeta>) -> Seq<Seq<Seq<char>>>
    decreases metas.len(),
{
    if metas.len() == 0 {
        Seq::empty()
    } else {
        case_contrib(metas[0]) + spec_cases(metas.drop_first())
    }
}

/// The views of a sequence of parsed cases.
pub open spec fn cases_views(cs: Seq<TestCase>) -> Seq<Seq<Seq<char>>> {
    Seq::new(cs.len(), |ci: int| exprs_views(cs[ci].0@))
}

/// The views of a sequence of names.
pub open spec fn strings_views(ss: Seq<String>) -> Seq<Seq<char>> {
    Seq::new(ss.len(), |i: int| ss[i]@)
}

/// The parsed attribute payload of the parametrized entry point: the
/// ordered argument names controlled by cases, and the ordered cases.
/// Position, not name, links a case's values to the declared names.
pub struct ParametrizeInfo {
    pub args: Vec<String>,
    pub cases: Vec<TestCase>,
}

fn parse_parametrize_from(metas: &Vec<NestedMeta>, i: usize) -> (r: Result<
    ParametrizeInfo,
    RsTestError,
>)
    requires
        i <= metas@.len(),
    ensures
        r is Ok <==> payload_ok(metas@.skip(i as int)),
        r is Ok ==> strings_views(r->Ok_0.args@) == spec_args(metas@.skip(i as int))
            && cases_views(r->Ok_0.cases@) == spec_cases(metas@.skip(i as int)),
        r is Err ==> r->Err_0 == first_payload_err(metas@.skip(i as int)),
    decreases metas@.len() - i,
{
    if i < metas.len() {
        proof {
            assert(metas@.skip(i as int).drop_first() =~= metas@.skip(i + 1));
            assert(metas@.skip(i as int)[0] == metas@[i as int]);
        }
        let head: Result<Option<ParametrizeElement>, RsTestError> = match extract_meta(
            &metas[i],
        ) {
            Some(m) => parse_meta_item(m),
            None => Ok(None),
        };
        match head {
            Err(e) => {
                proof {
                    assert(item_err(metas@[i as int]) == Some(e));
                }
                Err(e)
            },
            Ok(item) => {
                proof {
                    assert(item_err(metas@[i as int]) is None);
                }
                match parse_parametrize_from(metas, i + 1) {
                    Err(e) => Err(e),
                    Ok(mut rest) => match item {
                        Some(ParametrizeElement::Arg(arg)) => {
                            rest.args.insert(0, arg);
                            proof {
                                assert(strings_views(rest.args@) =~= spec_args(
                                    metas@.skip(i as int),
                                ));
                                assert(cases_views(rest.cases@) =~~= spec_cases(
                                    metas@.skip(i as int),
                                ));
                            }
                            Ok(rest)
                        },
                        Some(ParametrizeElement::Case(case)) => {
                            rest.cases.insert(0, case);
                            proof {
                                assert(strings_views(rest.args@) =~= spec_args(
                                    metas@.skip(i as int),
                                ));
                                assert(cases_views(rest.cases@) =~~= spec_cases(
                                    metas@.skip(i as int),
                                ));
                            }
                            Ok(rest)
                        },
                        None => {
                            proof {
                                assert(strings_views(rest.args@) =~= spec_args(
                                    metas@.skip(i as int),
                                ));
                                assert(cases_views(rest.cases@) =~= spec_cases(
                                    metas@.skip(i as int),
                                ));
                            }
                            Ok(rest)
                        },
                    },
                }
            },
        }
    } else {
        let r = ParametrizeInfo { args: Vec::new(), cases: Vec::new() };
        proof {
            assert(metas@.skip(i as int) =~= Seq::<NestedMeta>::empty());
            assert(strings_views(r.args@) =~= spec_args(metas@.skip(i as int)));
            assert(cases_views(r.cases@) =~= spec_cases(metas@.skip(i as int)));
        }
        Ok(r)
    }
}

/// Parses a whole parametrize payload: bare words become argument names,
/// `case(...)` groups become cases, both in encounter order; any other
/// item is dropped.  A `case(...)` group holding an argument that fails
/// to parse aborts the whole payload with that argument's error, first
/// failure first — there is no partial-case recovery.
pub fn parse_parametrize_data(metas: &Vec<NestedMeta>) -> (r: Result<
    ParametrizeInfo,
    RsTestError,
>)
    ensures
        r is Ok <==> payload_ok(metas@),
        r is Ok ==> strings_views(r->Ok_0.args@) == spec_args(metas@) && cases_views(
            r->Ok_0.cases@,
        ) == spec_cases(metas@),
        r is Err ==> r->Err_0 == first_payload_err(metas@),
{
    let r = parse_parametrize_from(metas, 0);
    proof {
        assert(metas@.skip(0) =~= metas@);
    }
    r
}

impl ParametrizeInfo {
    /// Parses the payload of the parametrized entry point.  An empty
    /// payload is rejected: parametrizing requires at least one item,
    /// and never silently produces zero variants.  A payload whose
    /// `case(...)` groups do not all parse fails with the first error.
    pub fn parse(metas: &Vec<NestedMeta>) -> (r: Result<ParametrizeInfo, RsTestError>)
        ensures
            metas@.len() == 0 ==> (r matches Err(e) && e is UnknownError),
            metas@.len() > 0 ==> {
                &&& (r is Ok <==> payload_ok(metas@))
                &&& (r is Ok ==> strings_views(r->Ok_0.args@) == spec_args(metas@) && cases_views(
                    r->Ok_0.cases@,
                ) == spec_cases(metas@))
                &&& (r is Err ==> r->Err_0 == first_payload_err(metas@))
            },
    {
        if metas.len() == 0 {
            Err(RsTestError::UnknownError)
        } else {
            parse_parametrize_data(metas)
        }
    }
}

} // verus!
