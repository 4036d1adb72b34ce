use hawk::ast::Expr;
use hawk::eval::{evaluate, resolve_expr, resolve_var};
use hawk::parser::parse;
use hawk::record::Record;
use hawk::value::{value_eq, value_lt, EvalError, TimestampValue, Value, ValueImplicitConversion,
    ValueKind};

fn var(name: &str) -> Expr {
    Expr::Variable(name.to_string())
}

fn text(s: &str) -> Value {
    Value::String(s.to_string())
}

fn record(fields: Vec<Value>) -> Record {
    Record::from_fields(fields)
}

#[test]
fn coercion_field_text_equals_integer_literal() {
    let rec = record(vec![text("5")]);
    let expr = Expr::Equal(Box::new(var("$1")), Box::new(Expr::Integer(5)));
    assert!(matches!(evaluate(&rec, &expr), Ok(Value::Bool(true))));

    let rec = record(vec![text("6")]);
    assert!(matches!(evaluate(&rec, &expr), Ok(Value::Bool(false))));
}

#[test]
fn field_out_of_range() {
    let rec = record(vec![text("a"), text("b")]);
    assert_eq!(evaluate(&rec, &var("$3")).unwrap_err(), EvalError::FieldOutOfRange);
    assert_eq!(evaluate(&rec, &var("$0")).unwrap_err(), EvalError::FieldOutOfRange);
    // a position too large for any record width
    assert_eq!(
        evaluate(&rec, &var("$99999999999999999999")).unwrap_err(),
        EvalError::FieldOutOfRange
    );
}

#[test]
fn unresolved_variable() {
    let rec = record(vec![text("a")]);
    assert_eq!(evaluate(&rec, &var("abc")).unwrap_err(), EvalError::UnresolvedVariable);
    assert_eq!(evaluate(&rec, &var("a.b")).unwrap_err(), EvalError::UnresolvedVariable);
    assert_eq!(evaluate(&rec, &var("$1x")).unwrap_err(), EvalError::UnresolvedVariable);
    assert_eq!(evaluate(&rec, &var("$")).unwrap_err(), EvalError::UnresolvedVariable);
    assert_eq!(
        resolve_var(&rec, &Expr::Integer(1)).unwrap_err(),
        EvalError::UnresolvedVariable
    );
}

#[test]
fn type_mismatch_on_logical_operands() {
    let rec = record(vec![]);
    let expr = Expr::And(Box::new(Expr::Integer(1)), Box::new(Expr::Integer(2)));
    assert_eq!(evaluate(&rec, &expr).unwrap_err(), EvalError::TypeMismatch);
}

#[test]
fn ordering_comparisons() {
    let rec = record(vec![]);
    let lt = Expr::LessThan(Box::new(Expr::Integer(3)), Box::new(Expr::Integer(10)));
    assert!(matches!(evaluate(&rec, &lt), Ok(Value::Bool(true))));

    // string ordering is lexical
    let lt = Expr::LessThan(
        Box::new(Expr::String("b".to_string())),
        Box::new(Expr::String("a".to_string())),
    );
    assert!(matches!(evaluate(&rec, &lt), Ok(Value::Bool(false))));
    let lt = Expr::LessThan(
        Box::new(Expr::String("abc".to_string())),
        Box::new(Expr::String("abd".to_string())),
    );
    assert!(matches!(evaluate(&rec, &lt), Ok(Value::Bool(true))));

    // across kinds the fixed rank order decides, without coercion:
    // Bool < Int < Timestamp < String
    let lt = Expr::LessThan(
        Box::new(Expr::Integer(5)),
        Box::new(Expr::String("0".to_string())),
    );
    assert!(matches!(evaluate(&rec, &lt), Ok(Value::Bool(true))));
    let ge = Expr::GreaterThanOrEqual(
        Box::new(Expr::Integer(3)),
        Box::new(Expr::Integer(3)),
    );
    assert!(matches!(evaluate(&rec, &ge), Ok(Value::Bool(true))));
    let le = Expr::LessThanOrEqual(Box::new(Expr::Integer(4)), Box::new(Expr::Integer(3)));
    assert!(matches!(evaluate(&rec, &le), Ok(Value::Bool(false))));
    let gt = Expr::GreaterThan(Box::new(Expr::Integer(4)), Box::new(Expr::Integer(3)));
    assert!(matches!(evaluate(&rec, &gt), Ok(Value::Bool(true))));
}

#[test]
fn equality_coerces_in_both_directions() {
    // field text "true" against a boolean field
    let rec = record(vec![Value::Bool(true), text("true")]);
    let expr = Expr::Equal(Box::new(var("$1")), Box::new(var("$2")));
    assert!(matches!(evaluate(&rec, &expr), Ok(Value::Bool(true))));

    // not-equal uses the same coercion
    let expr = Expr::NotEqual(Box::new(var("$1")), Box::new(var("$2")));
    assert!(matches!(evaluate(&rec, &expr), Ok(Value::Bool(false))));
}

#[test]
fn coercion_errors() {
    // text that is no integer
    let rec = record(vec![text("abc")]);
    let expr = Expr::Equal(Box::new(var("$1")), Box::new(Expr::Integer(5)));
    assert_eq!(evaluate(&rec, &expr).unwrap_err(), EvalError::CoercionError);

    // no coercion between Bool and Int in either direction
    let rec = record(vec![Value::Bool(true)]);
    assert_eq!(evaluate(&rec, &expr).unwrap_err(), EvalError::TypeMismatch);
}

#[test]
fn integer_coercion_is_arbitrary_precision() {
    // an integer text beyond i64 still compares numerically
    let eq5 = Expr::Equal(Box::new(var("$1")), Box::new(Expr::Integer(5)));
    let rec = record(vec![text("99999999999999999999")]);
    assert!(matches!(evaluate(&rec, &eq5), Ok(Value::Bool(false))));
    let rec = record(vec![text("-9223372036854775809")]);
    assert!(matches!(evaluate(&rec, &eq5), Ok(Value::Bool(false))));

    // a big field value equals the text that denotes it
    let rec = record(vec![Value::BigInt("9223372036854775808".to_string())]);
    let eq_text = Expr::Equal(
        Box::new(var("$1")),
        Box::new(Expr::String("9223372036854775808".to_string())),
    );
    assert!(matches!(evaluate(&rec, &eq_text), Ok(Value::Bool(true))));
    let ne_text = Expr::Equal(
        Box::new(var("$1")),
        Box::new(Expr::String("9223372036854775809".to_string())),
    );
    assert!(matches!(evaluate(&rec, &ne_text), Ok(Value::Bool(false))));

    // signs and leading zeros are normalised before comparing
    let rec = record(vec![text("0099")]);
    let eq99 = Expr::Equal(Box::new(var("$1")), Box::new(Expr::Integer(99)));
    assert!(matches!(evaluate(&rec, &eq99), Ok(Value::Bool(true))));
    let rec = record(vec![text("+10")]);
    let eq10 = Expr::Equal(Box::new(var("$1")), Box::new(Expr::Integer(10)));
    assert!(matches!(evaluate(&rec, &eq10), Ok(Value::Bool(true))));
}

#[test]
fn big_integers_compare_numerically() {
    let big = ValueImplicitConversion::coerce_value(
        &text("18446744073709551616"),
        ValueKind::Int,
    )
    .unwrap();
    match &big {
        Value::BigInt(s) => assert_eq!(s, "18446744073709551616"),
        other => panic!("expected a big integer, got {:?}", other),
    }
    let big2 = ValueImplicitConversion::coerce_value(
        &text("0018446744073709551616"),
        ValueKind::Int,
    )
    .unwrap();
    assert!(value_eq(&big, &big2));

    let huge = ValueImplicitConversion::coerce_value(
        &text("99999999999999999999"),
        ValueKind::Int,
    )
    .unwrap();
    let neg_huge = ValueImplicitConversion::coerce_value(
        &text("-99999999999999999999"),
        ValueKind::Int,
    )
    .unwrap();
    let neg_big = ValueImplicitConversion::coerce_value(
        &text("-18446744073709551616"),
        ValueKind::Int,
    )
    .unwrap();
    assert!(!value_eq(&big, &huge));
    assert!(value_lt(&big, &huge));
    assert!(!value_lt(&huge, &big));
    assert!(value_lt(&Value::Int(5), &big));
    assert!(value_lt(&neg_big, &Value::Int(-5)));
    assert!(value_lt(&neg_huge, &neg_big));
    assert!(!value_lt(&neg_big, &neg_huge));
}

#[test]
fn timestamp_coercion_compares_instants() {
    // 2020-01-01T00:00:00Z
    let ts = TimestampValue { epoch_seconds: 1577836800, subsec_nanos: 0, offset_seconds: 0 };
    let rec = record(vec![Value::Timestamp(ts)]);
    let eq = Expr::Equal(
        Box::new(var("$1")),
        Box::new(Expr::String("2020-01-01T00:00:00+00:00".to_string())),
    );
    assert!(matches!(evaluate(&rec, &eq), Ok(Value::Bool(true))));

    // the same instant written in another offset is still equal
    let eq = Expr::Equal(
        Box::new(var("$1")),
        Box::new(Expr::String("2020-01-01T01:00:00+01:00".to_string())),
    );
    assert!(matches!(evaluate(&rec, &eq), Ok(Value::Bool(true))));

    let ne = Expr::Equal(
        Box::new(var("$1")),
        Box::new(Expr::String("2020-01-01T00:00:01+00:00".to_string())),
    );
    assert!(matches!(evaluate(&rec, &ne), Ok(Value::Bool(false))));

    // a text that is no timestamp fails the coercion
    let bad = Expr::Equal(
        Box::new(var("$1")),
        Box::new(Expr::String("not a date".to_string())),
    );
    assert_eq!(evaluate(&rec, &bad).unwrap_err(), EvalError::CoercionError);
}

#[test]
fn predicate_nodes_fail_explicitly() {
    let rec = record(vec![text("5")]);
    let expr = Expr::Predicate("$1".to_string(), Box::new(Expr::Integer(5)));
    assert_eq!(evaluate(&rec, &expr).unwrap_err(), EvalError::TypeMismatch);
}

#[test]
fn evaluation_is_deterministic() {
    let rec = record(vec![text("5")]);
    let expr = parse("$1 == 5 && (3 < 10 || 2 >= 20)").unwrap();
    let first = evaluate(&rec, &expr);
    let second = evaluate(&rec, &expr);
    assert!(matches!(first, Ok(Value::Bool(true))));
    assert!(matches!(second, Ok(Value::Bool(true))));
}

#[test]
fn coerce_value_parses_texts() {
    let b = ValueImplicitConversion::coerce_value(&text("true"), ValueKind::Bool).unwrap();
    assert!(matches!(b, Value::Bool(true)));
    let n = ValueImplicitConversion::coerce_value(&text("-42"), ValueKind::Int).unwrap();
    assert!(matches!(n, Value::Int(-42)));
    let unchanged = ValueImplicitConversion::coerce_value(&Value::Int(7), ValueKind::String)
        .unwrap();
    assert!(matches!(unchanged, Value::Int(7)));
    assert!(ValueImplicitConversion::coerce_value(&text("yes"), ValueKind::Bool).is_err());
}

#[test]
fn parsed_query_filters_a_record() {
    let expr = parse("$1 == 5 && ($2 < 10 || $3 >= 20)").unwrap();
    let rec = record(vec![text("5"), Value::Int(3), Value::Int(1)]);
    assert!(matches!(resolve_expr(&rec, &expr), Ok(Value::Bool(true))));
    let rec = record(vec![text("5"), Value::Int(30), Value::Int(1)]);
    assert!(matches!(resolve_expr(&rec, &expr), Ok(Value::Bool(false))));
}
