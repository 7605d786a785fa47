//! Concrete checks of the engine's stated guarantees: precedence,
//! fallback, pairing, ordinals, errors, and the fixture registry.

use rstest::expr::{RsTestError, parse_expression};
use rstest::generate::{FnParam, Item, ItemFn, RsTestOutput, rstest, rstest_parametrize};
use rstest::parse::{
    LitValue, Meta, MetaList, NestedMeta, ParametrizeInfo, TestCase, parse_parametrize_data,
};
use rstest::resolver::{Fixture, Resolver, extract_resolve_expression, fixture_resolver};

fn plain(name: &str, ty: &str) -> FnParam {
    FnParam::Plain { name: name.to_string(), mutable: false, ty: ty.to_string() }
}

fn word(name: &str) -> NestedMeta {
    NestedMeta::Meta(Meta::Word(name.to_string()))
}

fn lit(source: &str) -> NestedMeta {
    NestedMeta::Literal(LitValue::Other { source: source.to_string() })
}

fn case(args: Vec<NestedMeta>) -> NestedMeta {
    NestedMeta::Meta(Meta::List(MetaList { name: "case".to_string(), nested: args }))
}

fn item_fn(name: &str, params: Vec<FnParam>) -> Item {
    Item::Fn(ItemFn { name: name.to_string(), attrs: vec![], params })
}

#[test]
fn case_value_overrides_fixture_with_same_name() {
    // a case binding for `x` and a fixture also named `x`: the case wins.
    let case_map = {
        let mut r = Resolver::default();
        r.add("x".to_string(), parse_expression("42").unwrap());
        r
    };
    let registry = fixture_resolver(&vec![Fixture {
        name: "x".to_string(),
        positional: vec![],
    }]);
    let chained = case_map.chain(&registry);

    let line = rstest::generate::arg_2_fixture_str(&plain("x", "u32"), &chained);

    assert_eq!("let x = 42;", &line.unwrap());
}

#[test]
fn positional_pairing_follows_declared_order() {
    let item = item_fn("t", vec![plain("a", "u32"), plain("b", "u32")]);
    let forward = vec![word("a"), word("b"), case(vec![lit("1"), lit("2")])];
    let swapped = vec![word("b"), word("a"), case(vec![lit("1"), lit("2")])];

    let fw = rstest_parametrize(&item, &forward, &Resolver::default()).unwrap();
    let sw = rstest_parametrize(&item, &swapped, &Resolver::default()).unwrap();

    assert_eq!(
        vec!["let a = 1;".to_string(), "let b = 2;".to_string()],
        fw.variants[0].bindings
    );
    // swapping the declared names without swapping the values swaps
    // which value binds to which name
    assert_eq!(
        vec!["let a = 2;".to_string(), "let b = 1;".to_string()],
        sw.variants[0].bindings
    );
}

#[test]
fn case_ordinals_ignore_interspersed_arg_items() {
    let item = item_fn("t", vec![plain("u", "u32")]);
    let metas = vec![
        case(vec![lit("1")]),
        word("u"),
        case(vec![lit("2")]),
        word("unused"),
        case(vec![lit("3")]),
    ];

    let unit = rstest_parametrize(&item, &metas, &Resolver::default()).unwrap();

    assert_eq!(3, unit.variants.len());
    assert_eq!("t_case_0", unit.variants[0].name);
    assert_eq!("t_case_1", unit.variants[1].name);
    assert_eq!("t_case_2", unit.variants[2].name);
}

#[test]
fn mutable_and_immutable_parameter_bind_identically() {
    let resolver = Resolver::default();
    let immutable = FnParam::Plain { name: "x".to_string(), mutable: false, ty: "u32".to_string() };
    let mutable = FnParam::Plain { name: "x".to_string(), mutable: true, ty: "u32".to_string() };

    let a = rstest::generate::arg_2_fixture_str(&immutable, &resolver).unwrap();
    let b = rstest::generate::arg_2_fixture_str(&mutable, &resolver).unwrap();

    assert_eq!(a, b);
    assert_eq!("let x = u32 :: default ( );", &a);
}

#[test]
fn empty_payload_is_rejected() {
    let item = item_fn("t", vec![plain("u", "u32")]);
    let metas: Vec<NestedMeta> = vec![];

    let out = rstest_parametrize(&item, &metas, &Resolver::default());

    assert!(matches!(out, Err(RsTestError::UnknownError)));
}

#[test]
fn plain_fixture_binding_uses_registered_expression() {
    // registry entry a -> val(): the plain entry point emits
    // `let a = val ( );` and calls `target(a)`.
    let mut registry = Resolver::default();
    registry.add("a".to_string(), parse_expression("val()").unwrap());

    let out = rstest(&item_fn("target", vec![plain("a", "i32")]), &registry).unwrap();

    match out {
        RsTestOutput::Test(v) => {
            assert_eq!("target", v.name);
            assert_eq!(vec!["let a = val ( );".to_string()], v.bindings);
            assert_eq!(vec!["a".to_string()], v.call_args);
            assert!(v.embeds_original);
        }
        RsTestOutput::PassThrough => panic!("expected a generated test"),
    }
}

#[test]
fn two_cases_give_two_variants_calling_the_original() {
    let item = item_fn("f", vec![plain("u", "i32")]);
    let metas = vec![word("u"), case(vec![lit("1")]), case(vec![lit("2")])];

    let unit = rstest_parametrize(&item, &metas, &Resolver::default()).unwrap();

    assert_eq!(2, unit.variants.len());
    assert_eq!("f_case_0", unit.variants[0].name);
    assert_eq!(vec!["let u = 1;".to_string()], unit.variants[0].bindings);
    assert_eq!("f_case_1", unit.variants[1].name);
    assert_eq!(vec!["let u = 2;".to_string()], unit.variants[1].bindings);
    assert_eq!(vec!["u".to_string()], unit.variants[0].call_args);
    assert_eq!(vec!["u".to_string()], unit.variants[1].call_args);
}

#[test]
fn list_not_named_case_reports_its_name() {
    let list = MetaList { name: "kase".to_string(), nested: vec![lit("1")] };

    let out = TestCase::try_from(&list);

    match out {
        Err(RsTestError::UnknownParameterOption(name)) => assert_eq!("kase", &name),
        _ => panic!("expected the unknown-option error"),
    }
}

#[test]
fn invalid_expression_text_is_an_unknown_error() {
    assert!(matches!(parse_expression("%%%"), Err(RsTestError::UnknownError)));
}

#[test]
fn empty_unwrap_is_rejected() {
    let bad = NestedMeta::Meta(Meta::List(MetaList {
        name: "Unwrap".to_string(),
        nested: vec![],
    }));

    let out = rstest::parse::parse_case_arg(&bad);

    assert!(matches!(out, Err(RsTestError::UnknownError)));
}

#[test]
fn unparsable_case_argument_aborts_the_payload() {
    let item = item_fn("t", vec![plain("u", "u32")]);
    let metas = vec![word("u"), case(vec![lit("%%%")]), case(vec![lit("2")])];

    // no partial-case recovery: the bad argument's error aborts the
    // whole payload parse, and no variants are generated
    let out = rstest_parametrize(&item, &metas, &Resolver::default());

    assert!(matches!(out, Err(RsTestError::UnknownError)));
}

#[test]
fn unrelated_named_lists_are_silently_dropped() {
    let metas = vec![
        word("u"),
        NestedMeta::Meta(Meta::List(MetaList {
            name: "future_option".to_string(),
            nested: vec![lit("1")],
        })),
        case(vec![lit("7")]),
    ];

    let info: ParametrizeInfo = parse_parametrize_data(&metas).unwrap();

    assert_eq!(vec!["u".to_string()], info.args);
    assert_eq!(1, info.cases.len());
}

#[test]
fn complex_parameter_pattern_is_rejected() {
    let item = item_fn("t", vec![plain("a", "u32"), FnParam::Complex]);

    let out = rstest(&item, &Resolver::default());

    assert!(matches!(out, Err(RsTestError::InvalidParameterPattern)));
}

#[test]
fn fixture_resolves_to_its_call_arity_entry_point() {
    let zero = Fixture { name: "val".to_string(), positional: vec![] };
    let two = Fixture {
        name: "pair".to_string(),
        positional: vec![parse_expression("1").unwrap(), parse_expression("2").unwrap()],
    };

    let e0 = extract_resolve_expression(&zero).unwrap();
    let e2 = extract_resolve_expression(&two).unwrap();

    assert_eq!("val :: partial_0 ( )", &e0.text);
    assert_eq!("pair :: partial_2 ( 1 , 2 )", &e2.text);
}

#[test]
fn registry_binds_parameters_to_fixture_calls() {
    let registry = fixture_resolver(&vec![Fixture { name: "val".to_string(), positional: vec![] }]);

    let out = rstest(&item_fn("t", vec![plain("val", "u32")]), &registry).unwrap();

    match out {
        RsTestOutput::Test(v) => {
            assert_eq!(vec!["let val = val :: partial_0 ( );".to_string()], v.bindings)
        }
        RsTestOutput::PassThrough => panic!("expected a generated test"),
    }
}

#[test]
fn first_entry_for_a_name_wins() {
    let mut r = Resolver::default();
    r.add("x".to_string(), parse_expression("1").unwrap());
    r.add("x".to_string(), parse_expression("2").unwrap());

    let got = r.resolve(&plain("x", "u32")).unwrap();

    assert_eq!("1", &got.text);
}

#[test]
fn case_from_texts_parses_each_position() {
    let texts = vec!["1".to_string(), "bar()".to_string()];

    let tc = TestCase::from(&texts).unwrap();

    assert_eq!(2, tc.0.len());
    assert_eq!("1", &tc.0[0].text);
    assert_eq!("bar ( )", &tc.0[1].text);

    let bad = vec!["1".to_string(), "%%%".to_string()];
    assert!(matches!(TestCase::from(&bad), Err(RsTestError::UnknownError)));
}

#[test]
fn payload_with_only_argument_names_generates_no_variants() {
    let item = item_fn("t", vec![plain("u", "u32")]);
    let metas = vec![word("u")];

    let unit = rstest_parametrize(&item, &metas, &Resolver::default()).unwrap();

    assert!(unit.gated_original);
    assert_eq!(0, unit.variants.len());
}

#[test]
fn short_case_pairs_the_shared_prefix_and_rest_falls_back() {
    // a case with fewer values than declared names binds the prefix
    // positionally; the unpaired name falls back to its type's default
    let item = item_fn("t", vec![plain("a", "u32"), plain("b", "u32")]);
    let metas = vec![word("a"), word("b"), case(vec![lit("1")])];

    let unit = rstest_parametrize(&item, &metas, &Resolver::default()).unwrap();

    assert_eq!(
        vec!["let a = 1;".to_string(), "let b = u32 :: default ( );".to_string()],
        unit.variants[0].bindings
    );
}

#[test]
fn long_case_ignores_values_beyond_the_declared_names() {
    let item = item_fn("t", vec![plain("a", "u32")]);
    let metas = vec![word("a"), case(vec![lit("1"), lit("99")])];

    let unit = rstest_parametrize(&item, &metas, &Resolver::default()).unwrap();

    assert_eq!(vec!["let a = 1;".to_string()], unit.variants[0].bindings);
}

#[test]
fn ordinals_keep_counting_past_nine() {
    let item = item_fn("t", vec![plain("u", "u32")]);
    let mut metas = vec![word("u")];
    for n in 0..11 {
        metas.push(case(vec![lit(&n.to_string())]));
    }

    let unit = rstest_parametrize(&item, &metas, &Resolver::default()).unwrap();

    assert_eq!(11, unit.variants.len());
    assert_eq!("t_case_9", unit.variants[9].name);
    assert_eq!("t_case_10", unit.variants[10].name);
}

#[test]
fn string_literal_case_argument_keeps_its_quotes() {
    let payload_item = NestedMeta::Literal(LitValue::Str {
        source: "\"ciao\"".to_string(),
        value: "ciao".to_string(),
    });

    let arg = rstest::parse::parse_case_arg(&payload_item).unwrap();

    assert_eq!("\"ciao\"", &arg.text);
}
