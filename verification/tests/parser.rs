use galileo_maplibre::color::Color;
use galileo_maplibre::expr::{Expr, ExprValue};
use galileo_maplibre::json::Num;
use galileo_maplibre::parser::{chars_of, number_end_x, parse_expr};

fn num(x: f64) -> Num {
    Num { bits: x.to_bits() }
}

fn numbers(input: &str) -> Vec<Option<Num>> {
    let chars = chars_of(input);
    (0..chars.len())
        .map(|i| {
            number_end_x(&chars, i).map(|e| num(chars[i..e].iter().collect::<String>().parse::<f64>().unwrap()))
        })
        .collect()
}

fn parse(input: &str) -> Result<Expr, Vec<String>> {
    parse_expr(input, &numbers(input)).map_err(|errs| errs.iter().map(|e| e.describe()).collect())
}

fn check(input: &str, expected: Expr) {
    let res = parse(input);
    assert!(res.is_ok(), "Errors parsing input `{input}`. Errors: {:?}", res.err().unwrap());
    assert_eq!(res.unwrap(), expected, "Wrong parsing result");
}

fn n(x: f64) -> Expr {
    Expr::Value(ExprValue::Number(num(x)))
}

fn b(x: bool) -> Expr {
    Expr::Value(ExprValue::Boolean(x))
}

fn st(x: &str) -> Expr {
    Expr::Value(ExprValue::String(x.to_string()))
}

fn col(r: u8, g: u8, bl: u8, a: u8) -> Expr {
    Expr::Value(ExprValue::Color(Color { r, g, b: bl, a }))
}

fn get(x: &str) -> Expr {
    Expr::Get(x.to_string())
}

#[test]
fn parse_atoms() {
    let cases = [
        ("42", n(42.0)),
        ("42.", n(42.0)),
        ("0042", n(42.0)),
        ("1.25e2", n(125.0)),
        ("1.25e-2", n(0.0125)),
        ("  42", n(42.0)),
        ("\t42", n(42.0)),
        ("42  ", n(42.0)),
        ("  42  ", n(42.0)),
        ("true", b(true)),
        ("false", b(false)),
        ("  false  ", b(false)),
        ("#FFAA00", col(0xFF, 0xAA, 0x00, 0xFF)),
        ("#FFAA00CC", col(0xFF, 0xAA, 0x00, 0xCC)),
        ("#ffaa00", col(0xFF, 0xAA, 0x00, 0xFF)),
        ("#fFaA00", col(0xFF, 0xAA, 0x00, 0xFF)),
        ("  #fFaA00  ", col(0xFF, 0xAA, 0x00, 0xFF)),
        (r#""text""#, st("text")),
        (r#""Текст!ёё""#, st("Текст!ёё")),
        (r#""택스트""#, st("택스트")),
        (r#""Escaped \" quotes""#, st(r#"Escaped " quotes"#)),
        (r#"'text'"#, st("text")),
        (r#"'Escaped \' quotes'"#, st("Escaped ' quotes")),
        (r#"  "text"  "#, st("text")),
        ("property", get("property")),
        ("nullish", get("nullish")),
        ("trueman", get("trueman")),
        ("  property  ", get("property")),
        ("zoom()", Expr::Zoom),
        ("  zoom()  ", Expr::Zoom),
        ("get('property')", get("property")),
        ("any([false, bool_prop])", Expr::Any(vec![b(false), get("bool_prop")])),
        (
            "all([string_prop == 'hi', bool_prop])",
            Expr::All(vec![
                Expr::Eq(Box::new(get("string_prop")), Box::new(st("hi"))),
                get("bool_prop"),
            ]),
        ),
        ("not(true)", Expr::Not(Box::new(b(true)))),
        ("not(not(bool_prop))", Expr::Not(Box::new(Expr::Not(Box::new(get("bool_prop")))))),
        (
            "in(param, ['candidate1', 'candidate2'])",
            Expr::In { needle: Box::new(get("param")), haystack: vec![st("candidate1"), st("candidate2")] },
        ),
        ("geom_type()", Expr::GeomType),
    ];

    for (case, expected) in cases {
        check(case, expected);
    }
}

#[test]
fn parse_binary() {
    check("2 == 3", Expr::Eq(Box::new(n(2.0)), Box::new(n(3.0))));
    check("trueman == 42", Expr::Eq(Box::new(get("trueman")), Box::new(n(42.0))));
}

#[test]
fn parse_block() {
    check("(42)", n(42.0));
    check("(42 == 12)", Expr::Eq(Box::new(n(42.0)), Box::new(n(12.0))));
    check(
        "(42 == 12) == false",
        Expr::Eq(Box::new(Expr::Eq(Box::new(n(42.0)), Box::new(n(12.0)))), Box::new(b(false))),
    );
    check(
        "true == (42 == 12)",
        Expr::Eq(Box::new(b(true)), Box::new(Expr::Eq(Box::new(n(42.0)), Box::new(n(12.0))))),
    );
}

fn s(input: &str) -> String {
    let result = parse(input);
    assert!(result.is_err(), "Expression `{input}` should be parsed with error, but returned: {result:#?}");
    result.err().unwrap()[0].clone()
}

#[test]
fn parser_error_num() {
    assert_eq!(s("1.2.3"), "invalid value `1.2.3` at 0..5");
}

#[test]
fn parser_error_literal() {
    assert_eq!(s("???"), "invalid value `???` at 0..3");
}

#[test]
fn parser_error_unary_with_literal() {
    assert_eq!(s("property == ???"), "invalid value `???` at 12..15");
}

#[test]
fn parser_error_unknown_function() {
    assert_eq!(s("unknown_function()"), "Unknown function `unknown_function` at 0..16");
}

#[test]
fn parser_error_invalid_argument_count() {
    assert_eq!(s("zoom(property)"), "function zoom expected 0 arguments but got 1 instead at 0..14");
}

#[test]
fn parser_error_invalid_argument_type_string() {
    assert_eq!(
        s("get(42)"),
        "expected `String` argument at position `1` of function `get`, but got `42` at 4..6"
    );
}

#[test]
fn parser_error_invalid_argument_type_array() {
    assert_eq!(
        s("any(true)"),
        "expected `[Array]` argument at position `1` of function `any`, but got `true` at 4..8"
    );
}

#[test]
fn parser_comparisons_and_errors() {
    check("a != 1", Expr::Ne(Box::new(get("a")), Box::new(n(1.0))));
    check("a > 1", Expr::Gt(Box::new(get("a")), Box::new(n(1.0))));
    check("a < 1", Expr::Lt(Box::new(get("a")), Box::new(n(1.0))));
    check("a >= 1", Expr::Gte(Box::new(get("a")), Box::new(n(1.0))));
    check("a<=1", Expr::Lte(Box::new(get("a")), Box::new(n(1.0))));
    assert_eq!(parse("zoom(").err().unwrap(), vec!["unexpected input `(` at 4..5".to_string()]);
    assert_eq!(parse("any([true, false)").err().unwrap(), vec!["unexpected input `(` at 3..4".to_string()]);
    assert_eq!(parse("property 'value'").err().unwrap(), vec!["unexpected input `'` at 9..10".to_string()]);
    assert_eq!(parse("").err().unwrap(), vec!["unexpected end of input at 0..0".to_string()]);
}

#[test]
fn parser_reports_every_error_found() {
    assert_eq!(
        parse("any([???, get(1)])").err().unwrap(),
        vec![
            "invalid value `???` at 5..8".to_string(),
            "expected `String` argument at position `1` of function `get`, but got `1` at 14..15".to_string(),
        ]
    );
    assert_eq!(parse("property 'value'").err().unwrap(), vec!["unexpected input `'` at 9..10".to_string()]);
    assert_eq!(parse("").err().unwrap(), vec!["unexpected end of input at 0..0".to_string()]);
    assert_eq!(parse("in(a)").err().unwrap(), vec!["function in missing argumnt 2 at 0..2".to_string()]);
    assert_eq!(
        parse("not(a, b)").err().unwrap(),
        vec!["function not expected 1 arguments but got 2 instead at 0..9".to_string()]
    );
}

#[test]
fn parser_two_character_comparisons() {
    check("zoom() >= 10", Expr::Gte(Box::new(Expr::Zoom), Box::new(n(10.0))));
    check("zoom() <= 10", Expr::Lte(Box::new(Expr::Zoom), Box::new(n(10.0))));
    check("zoom() > 10", Expr::Gt(Box::new(Expr::Zoom), Box::new(n(10.0))));
    check("zoom() < 10", Expr::Lt(Box::new(Expr::Zoom), Box::new(n(10.0))));
    check("zoom()>=10", Expr::Gte(Box::new(Expr::Zoom), Box::new(n(10.0))));
}

#[test]
fn parser_error_two_literals() {
    // The second literal cannot follow the first: one error, at the quote that starts it.
    let errs = parse_expr("property 'value'", &numbers("property 'value'")).err().unwrap();
    assert_eq!(errs.len(), 1);
    assert_eq!((errs[0].start, errs[0].end), (9, 10));
}
