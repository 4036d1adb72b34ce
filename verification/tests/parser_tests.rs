use hawk::ast::Expr;
use hawk::parser::{parse, parse_expr, parse_identifier, parse_number, parse_predicate,
    parse_variable_path, parse_variable_with_predicate, ParseErrorKind};

fn var(name: &str) -> Expr {
    Expr::Variable(name.to_string())
}

#[test]
fn test_variable_with_predicate() {
    let input_with_predicate = "abc.def[a == 5 && (b < 10 || c >= 20)]";
    match parse_variable_with_predicate(input_with_predicate, 0) {
        Ok((expr, remaining)) => println!(
            "Parsed expression with predicate: {:?}\nRemaining: {:?}",
            expr, remaining
        ),
        Err(e) => println!("Error: {:?}", e),
    }
}

#[test]
fn test_predicate() {
    let input_predicate = "[$1 == 5 && (b < 10 || c >= 20)]";
    match parse_predicate(input_predicate, 0) {
        Ok((expr, remaining)) => {
            println!("Parsed predicate: {:?}\nRemaining: {:?}", expr, remaining)
        }
        Err(e) => println!("Error: {:?}", e),
    }
}

#[test]
fn precedence_and_binds_tighter_than_or() {
    let tree = parse("a && b || c").unwrap();
    let expected = Expr::Or(
        Box::new(Expr::And(Box::new(var("a")), Box::new(var("b")))),
        Box::new(var("c")),
    );
    assert!(tree.deep_eq(&expected));

    let tree = parse("a || b && c").unwrap();
    let expected = Expr::Or(
        Box::new(var("a")),
        Box::new(Expr::And(Box::new(var("b")), Box::new(var("c")))),
    );
    assert!(tree.deep_eq(&expected));
}

#[test]
fn worked_example() {
    let tree = parse("$1 == 5 && (b < 10 || c >= 20)").unwrap();
    let expected = Expr::And(
        Box::new(Expr::Equal(Box::new(var("$1")), Box::new(Expr::Integer(5)))),
        Box::new(Expr::Or(
            Box::new(Expr::LessThan(Box::new(var("b")), Box::new(Expr::Integer(10)))),
            Box::new(Expr::GreaterThanOrEqual(
                Box::new(var("c")),
                Box::new(Expr::Integer(20)),
            )),
        )),
    );
    assert!(tree.deep_eq(&expected));
}

#[test]
fn deep_eq_distinguishes_trees() {
    let a = parse("a && b").unwrap();
    let b = parse("a || b").unwrap();
    let c = parse("a && c").unwrap();
    assert!(!a.deep_eq(&b));
    assert!(!a.deep_eq(&c));
    assert!(a.deep_eq(&parse("a && b").unwrap()));
}

#[test]
fn parse_is_deterministic() {
    let once = parse("$1 == 5 && (b < 10 || c >= 20)").unwrap();
    let twice = parse("$1 == 5 && (b < 10 || c >= 20)").unwrap();
    assert!(once.deep_eq(&twice));
}

#[test]
fn trailing_input_is_reported_with_the_suffix() {
    let err = parse("a < b < c").unwrap_err();
    assert_eq!(err.kind, ParseErrorKind::TrailingInput);
    assert_eq!(err.pos, 5);
    assert_eq!(&"a < b < c"[err.pos..], " < c");
}

#[test]
fn syntax_errors() {
    let err = parse("&&").unwrap_err();
    assert_eq!(err.kind, ParseErrorKind::Syntax);
    let err = parse("").unwrap_err();
    assert_eq!(err.kind, ParseErrorKind::Syntax);
    let err = parse("(a && b").unwrap_err();
    assert_eq!(err.kind, ParseErrorKind::Syntax);
    // an integer literal beyond i64 does not derive
    assert!(parse("99999999999999999999").is_err());
}

#[test]
fn number_identifier_and_path_pieces() {
    let (e, p) = parse_number("42abc", 0).unwrap();
    assert!(e.deep_eq(&Expr::Integer(42)));
    assert_eq!(p, 2);

    let (t, p) = parse_identifier("$1 == 5", 0).unwrap();
    assert_eq!(t, "$1");
    assert_eq!(p, 2);

    let (t, p) = parse_variable_path("abc.def[x]", 0).unwrap();
    assert_eq!(t, "abc.def");
    assert_eq!(p, 7);

    // a trailing dot is not consumed
    let (t, p) = parse_variable_path("a.b.", 0).unwrap();
    assert_eq!(t, "a.b");
    assert_eq!(p, 3);
}

#[test]
fn expression_remainder_is_not_consumed() {
    // "&&" without a right-hand comparison stays unconsumed
    let (e, p) = parse_expr("a && ", 0).unwrap();
    assert!(e.deep_eq(&var("a")));
    assert_eq!(p, 1);

    // whitespace before a parenthesis is consumed, trailing whitespace is not
    let (e, p) = parse_expr(" (a)", 0).unwrap();
    assert!(e.deep_eq(&var("a")));
    assert_eq!(p, 4);
}

#[test]
fn predicate_nodes_parse() {
    let tree = parse("abc.def[a == 5]").unwrap();
    let expected = Expr::Predicate(
        "abc.def".to_string(),
        Box::new(Expr::Equal(Box::new(var("a")), Box::new(Expr::Integer(5)))),
    );
    assert!(tree.deep_eq(&expected));
}
