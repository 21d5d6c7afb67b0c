use schema_core::ast::{Argument, Expression, Span};
use schema_core::diagnostics::{Diagnostics, ErrorKind};
use schema_core::index_fields::{
    coerce_field_array_with_args, field_args, known_operator_class_by_name, KnownOperatorClass,
    OperatorClass, SortOrder,
};
use schema_core::text::{parse_u32, push_decimal, str_eq};

fn sp(a: usize, b: usize) -> Span {
    Span::new(a, b)
}

fn named(name: &str, value: Expression) -> Argument {
    Argument { name: Some(name.to_owned()), value, span: sp(1, 2) }
}

fn constant(s: &str) -> Expression {
    Expression::ConstantValue(s.to_owned(), sp(3, 4))
}

fn number(s: &str) -> Expression {
    Expression::NumericValue(s.to_owned(), sp(5, 6))
}

fn raw(args: Vec<Argument>) -> Expression {
    Expression::Function("raw".to_owned(), args, sp(7, 8))
}

#[test]
fn length_and_sort_resolve() {
    let expr = Expression::Array(
        vec![Expression::Function(
            "title".to_owned(),
            vec![named("length", number("30")), named("sort", constant("Desc"))],
            sp(0, 10),
        )],
        sp(0, 12),
    );
    let mut d = Diagnostics::new();
    let attrs = coerce_field_array_with_args(&expr, &mut d).expect("resolves");
    assert_eq!(attrs.len(), 1);
    assert_eq!(attrs[0].field_name, "title");
    assert_eq!(attrs[0].length, Some(30));
    assert_eq!(attrs[0].sort_order, Some(SortOrder::Desc));
    assert!(attrs[0].operator_class.is_none());
    assert!(!d.has_errors());
}

#[test]
fn raw_operator_class_passes_through() {
    let args = vec![named(
        "ops",
        raw(vec![Argument {
            name: None,
            value: Expression::StringValue("gin_trgm_ops".to_owned(), sp(9, 10)),
            span: sp(9, 10),
        }]),
    )];
    let fa = field_args(&args).expect("resolves");
    match fa.operator_class {
        Some(OperatorClass::Raw(s)) => assert_eq!(s, "gin_trgm_ops"),
        other => panic!("unexpected {:?}", other),
    }
}

#[test]
fn catalog_operator_class_resolves() {
    let args = vec![named("ops", constant("JsonbPathOps"))];
    let fa = field_args(&args).expect("resolves");
    match fa.operator_class {
        Some(OperatorClass::Constant(c)) => assert_eq!(c, KnownOperatorClass::JsonbPathOps),
        other => panic!("unexpected {:?}", other),
    }
    assert_eq!(known_operator_class_by_name("UuidMinMaxMultiOps"), Some(KnownOperatorClass::UuidMinMaxMultiOps));
    assert_eq!(known_operator_class_by_name("jsonbops"), None);
}

#[test]
fn unknown_operator_class_fails_whole_list() {
    let expr = Expression::Array(
        vec![
            constant("a"),
            Expression::Function("b".to_owned(), vec![named("ops", constant("NoSuchOps"))], sp(0, 1)),
        ],
        sp(0, 12),
    );
    let mut d = Diagnostics::new();
    assert!(coerce_field_array_with_args(&expr, &mut d).is_none());
    assert_eq!(d.len(), 1);
    assert_eq!(d.get(0).kind, ErrorKind::ParserError);
    assert_eq!(d.get(0).message(), "Invalid operator class: NoSuchOps");
    assert_eq!(d.get(0).span, sp(3, 4));
}

#[test]
fn resolution_is_deterministic() {
    let expr = Expression::Array(
        vec![
            constant("a"),
            Expression::Function("b".to_owned(), vec![named("sort", constant("Asc"))], sp(0, 1)),
        ],
        sp(0, 12),
    );
    let mut d = Diagnostics::new();
    let first = coerce_field_array_with_args(&expr, &mut d).expect("resolves");
    let second = coerce_field_array_with_args(&expr, &mut d).expect("resolves");
    assert_eq!(first.len(), second.len());
    for (x, y) in first.iter().zip(second.iter()) {
        assert_eq!(x.field_name, y.field_name);
        assert_eq!(x.sort_order, y.sort_order);
        assert_eq!(x.length, y.length);
    }
    assert_eq!(first[1].sort_order, Some(SortOrder::Asc));
}

#[test]
fn bad_sort_is_a_parser_error() {
    let args = vec![named("sort", constant("Up"))];
    let err = field_args(&args).expect_err("fails");
    assert_eq!(err.kind, ErrorKind::ParserError);
    assert_eq!(err.message(), "Asc, Desc");
    assert_eq!(err.span, sp(1, 2));
}

#[test]
fn bad_length_is_a_parser_error() {
    let err = field_args(&vec![named("length", number("4294967296"))]).expect_err("fails");
    assert_eq!(err.message(), "valid integer");
    let err = field_args(&vec![named("length", constant("ten"))]).expect_err("fails");
    assert_eq!(err.message(), "valid integer");
    let ok = field_args(&vec![named("length", number("4294967295"))]).expect("fits");
    assert_eq!(ok.length, Some(4294967295));
}

#[test]
fn raw_with_wrong_arity_reports_count() {
    let err = field_args(&vec![named("ops", raw(vec![]))]).expect_err("fails");
    assert_eq!(err.message(), "Wrong number of arguments. Expected: 1, got: 0");
    assert_eq!(err.span, sp(7, 8));
}

#[test]
fn raw_with_non_string_is_an_error() {
    let err = field_args(&vec![named(
        "ops",
        raw(vec![Argument { name: None, value: number("1"), span: sp(0, 1) }]),
    )])
    .expect_err("fails");
    assert_eq!(err.message(), "Invalid parameter type: expected string");
}

#[test]
fn non_constant_entry_is_a_type_mismatch() {
    let expr = Expression::Array(vec![number("1")], sp(0, 3));
    let mut d = Diagnostics::new();
    assert!(coerce_field_array_with_args(&expr, &mut d).is_none());
    assert_eq!(d.get(0).kind, ErrorKind::TypeMismatch);
    assert_eq!(d.get(0).message(), "Expected a constant literal value, but received numeric value.");
}

#[test]
fn every_malformed_entry_reports() {
    let expr = Expression::Array(vec![number("1"), constant("ok"), number("2")], sp(0, 3));
    let mut d = Diagnostics::new();
    assert!(coerce_field_array_with_args(&expr, &mut d).is_none());
    assert_eq!(d.len(), 2);
}

#[test]
fn empty_list_resolves_to_empty() {
    let expr = Expression::Array(vec![], sp(0, 2));
    let mut d = Diagnostics::new();
    assert_eq!(coerce_field_array_with_args(&expr, &mut d).expect("resolves").len(), 0);
    assert!(!d.has_errors());
}

#[test]
fn non_array_is_rejected() {
    let mut d = Diagnostics::new();
    assert!(coerce_field_array_with_args(&constant("a"), &mut d).is_none());
    assert_eq!(d.get(0).message(), "Expected a array value, but received literal value.");
}

#[test]
fn decimal_helpers() {
    assert_eq!(parse_u32("+17"), Some(17));
    assert_eq!(parse_u32(""), None);
    assert_eq!(parse_u32("1a"), None);
    let mut s = String::from("n=");
    push_decimal(&mut s, 1203);
    assert_eq!(s, "n=1203");
    assert!(str_eq("abc", "abc"));
    assert!(!str_eq("abc", "abd"));
}
