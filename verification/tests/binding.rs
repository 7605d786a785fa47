//! The binding core: one statement per parameter, resolver first, then
//! the declared type's default-constructor call, never inheriting
//! mutability.

use rstest::expr::parse_expression;
use rstest::generate::{FnParam, arg_2_fixture_str};
use rstest::resolver::Resolver;

fn plain(name: &str, ty: &str) -> FnParam {
    FnParam::Plain { name: name.to_string(), mutable: false, ty: ty.to_string() }
}

fn plain_mut(name: &str, ty: &str) -> FnParam {
    FnParam::Plain { name: name.to_string(), mutable: true, ty: ty.to_string() }
}

#[test]
fn extract_fixture_call_arg() {
    let arg = plain("fix", "String");
    let resolver = Resolver::default();

    let line = arg_2_fixture_str(&arg, &resolver);

    assert_eq!("let fix = String :: default ( );", &line.unwrap());
}

#[test]
fn extract_fixture_should_not_add_mut() {
    let arg = plain_mut("fix", "String");
    let resolver = Resolver::default();

    let line = arg_2_fixture_str(&arg, &resolver);

    assert_eq!("let fix = String :: default ( );", &line.unwrap());
}

#[test]
fn arg_2_fixture_str_should_use_passed_fixture_if_any() {
    let arg = plain("fix", "String");
    let call = parse_expression("bar()").unwrap();
    let mut resolver = Resolver::default();
    resolver.add("fix".to_string(), call);

    let line = arg_2_fixture_str(&arg, &resolver);

    assert_eq!("let fix = bar ( );", &line.unwrap());
}

#[test]
fn resolver_should_return_the_given_expression() {
    let arg = plain("foo", "String");
    let expected = parse_expression("bar()").unwrap();
    let mut resolver = Resolver::default();

    resolver.add("foo".to_string(), expected.duplicate());

    assert_eq!(expected, resolver.resolve(&arg).unwrap())
}

#[test]
fn resolver_should_return_none_for_unknown_argument() {
    let arg = plain("foo", "String");
    let resolver = Resolver::default();

    assert!(resolver.resolve(&arg).is_none())
}
