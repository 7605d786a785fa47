//! The parametrized entry point: one variant per case, ordinal names,
//! positional pairing, fallback, and the structural rejection.

use rstest::expr::RsTestError;
use rstest::generate::{FnParam, GeneratedUnit, Item, ItemFn, rstest_parametrize};
use rstest::parse::{LitValue, Meta, MetaList, NestedMeta};
use rstest::resolver::Resolver;

fn plain(name: &str, ty: &str) -> FnParam {
    FnParam::Plain { name: name.to_string(), mutable: false, ty: ty.to_string() }
}

fn word(name: &str) -> NestedMeta {
    NestedMeta::Meta(Meta::Word(name.to_string()))
}

fn lit(source: &str) -> NestedMeta {
    NestedMeta::Literal(LitValue::Other { source: source.to_string() })
}

fn unwrap_arg(code: &str) -> NestedMeta {
    NestedMeta::Meta(Meta::List(MetaList {
        name: "Unwrap".to_string(),
        nested: vec![NestedMeta::Literal(LitValue::Str {
            source: format!("r#\"{}\"#", code),
            value: code.to_string(),
        })],
    }))
}

fn case(args: Vec<NestedMeta>) -> NestedMeta {
    NestedMeta::Meta(Meta::List(MetaList { name: "case".to_string(), nested: args }))
}

fn item_fn(name: &str, attrs: Vec<&str>, params: Vec<FnParam>) -> Item {
    Item::Fn(ItemFn {
        name: name.to_string(),
        attrs: attrs.into_iter().map(|a| a.to_string()).collect(),
        params,
    })
}

fn strlen_payload() -> Vec<NestedMeta> {
    vec![
        word("expected"),
        word("input"),
        case(vec![lit("4"), unwrap_arg("String::from(\"ciao\")")]),
        case(vec![lit("3"), unwrap_arg("String::from(\"Foo\")")]),
    ]
}

fn strlen_item() -> Item {
    item_fn("strlen_test", vec![], vec![plain("expected", "usize"), plain("input", "String")])
}

fn generate(item: &Item, metas: &Vec<NestedMeta>) -> Result<GeneratedUnit, RsTestError> {
    rstest_parametrize(item, metas, &Resolver::default())
}

#[test]
fn parametrize_simple_should_compile() {
    let output = generate(&strlen_item(), &strlen_payload());

    assert!(output.is_ok(), "Compile error due: generation failed");
}

#[test]
fn parametrize_simple_happy_path() {
    let unit = generate(&strlen_item(), &strlen_payload()).unwrap();

    assert!(unit.gated_original);
    assert_eq!(2, unit.variants.len());
    assert_eq!("strlen_test_case_0", unit.variants[0].name);
    assert_eq!("strlen_test_case_1", unit.variants[1].name);
    assert_eq!(
        vec![
            "let expected = 4;".to_string(),
            "let input = String :: from ( \"ciao\" );".to_string(),
        ],
        unit.variants[0].bindings
    );
    assert_eq!(
        vec![
            "let expected = 3;".to_string(),
            "let input = String :: from ( \"Foo\" );".to_string(),
        ],
        unit.variants[1].bindings
    );
    assert_eq!(vec!["expected".to_string(), "input".to_string()], unit.variants[0].call_args);
}

#[test]
fn parametrize_mut() {
    let item = item_fn(
        "add_test",
        vec![],
        vec![
            FnParam::Plain { name: "a".to_string(), mutable: true, ty: "u32".to_string() },
            plain("b", "u32"),
        ],
    );
    let metas = vec![
        word("a"),
        word("b"),
        case(vec![lit("1"), lit("2")]),
        case(vec![lit("2"), lit("4")]),
    ];

    let unit = generate(&item, &metas).unwrap();

    assert_eq!("add_test_case_0", unit.variants[0].name);
    assert_eq!("add_test_case_1", unit.variants[1].name);
    // the generated binding drops the parameter's own `mut`
    assert_eq!(
        vec!["let a = 1;".to_string(), "let b = 2;".to_string()],
        unit.variants[0].bindings
    );
}

#[test]
fn parametrize_generic() {
    let item = item_fn("strlen_test", vec![], vec![plain("expected", "usize"), plain("input", "S")]);

    let unit = generate(&item, &strlen_payload()).unwrap();

    assert_eq!("strlen_test_case_0", unit.variants[0].name);
    assert_eq!("strlen_test_case_1", unit.variants[1].name);
}

#[test]
fn parametrize_impl_param() {
    let item = item_fn(
        "strlen_test",
        vec![],
        vec![plain("expected", "usize"), plain("input", "impl AsRef<str>")],
    );

    let unit = generate(&item, &strlen_payload()).unwrap();

    assert_eq!("strlen_test_case_0", unit.variants[0].name);
    assert_eq!("strlen_test_case_1", unit.variants[1].name);
}

#[test]
fn parametrize_fallback() {
    // `a` has no case value and no fixture entry: it falls back to the
    // default-constructor call on its declared type.
    let item = item_fn("sum", vec![], vec![plain("a", "u32"), plain("b", "u32")]);
    let metas = vec![word("b"), case(vec![lit("2")]), case(vec![lit("3")])];

    let unit = generate(&item, &metas).unwrap();

    assert_eq!("sum_case_0", unit.variants[0].name);
    assert_eq!("sum_case_1", unit.variants[1].name);
    assert_eq!(
        vec!["let a = u32 :: default ( );".to_string(), "let b = 2;".to_string()],
        unit.variants[0].bindings
    );
}

#[test]
fn parametrize_should_panic() {
    let item = item_fn("fail", vec!["#[should_panic]"], vec![plain("expected", "u32")]);
    let metas = vec![
        word("expected"),
        case(vec![lit("1")]),
        case(vec![lit("2")]),
        case(vec![lit("3")]),
    ];

    let unit = generate(&item, &metas).unwrap();

    assert_eq!(3, unit.variants.len());
    assert_eq!("fail_case_0", unit.variants[0].name);
    assert_eq!("fail_case_1", unit.variants[1].name);
    assert_eq!("fail_case_2", unit.variants[2].name);
    assert_eq!(vec!["#[should_panic]".to_string()], unit.variants[0].attrs);
    assert_eq!(vec!["#[should_panic]".to_string()], unit.variants[2].attrs);
}

#[test]
fn parametrize_bool() {
    let item = item_fn("bool", vec![], vec![plain("input", "bool")]);
    let metas = vec![word("input"), case(vec![lit("true")]), case(vec![lit("false")])];

    let unit = generate(&item, &metas).unwrap();

    assert_eq!("bool_case_0", unit.variants[0].name);
    assert_eq!("bool_case_1", unit.variants[1].name);
    assert_eq!(vec!["let input = true;".to_string()], unit.variants[0].bindings);
    assert_eq!(vec!["let input = false;".to_string()], unit.variants[1].bindings);
}

#[test]
fn parametrize_should_reject_no_item_function() {
    let metas = vec![word("f"), case(vec![lit("42")])];

    // `struct Foo;`, `impl Foo {}` and `mod mod_baz {}` are all rejected:
    // the parametrized entry point fails hard on anything but a function.
    let on_struct = generate(&Item::Other, &metas);
    let on_impl = generate(&Item::Other, &metas);
    let on_mod = generate(&Item::Other, &metas);

    assert!(matches!(on_struct, Err(RsTestError::StructuralMismatch)));
    assert!(matches!(on_impl, Err(RsTestError::StructuralMismatch)));
    assert!(matches!(on_mod, Err(RsTestError::StructuralMismatch)));
}
