use galileo_maplibre::color::MlColor;
use galileo_maplibre::json::{JsonNumber, JsonValue, Num};
use galileo_maplibre::ml_expr::MlExpr;
use galileo_maplibre::style::value::{ColorSpace, Function, FunctionType, MlStyleValue, StyleLiteral};

fn num(x: f64) -> Num {
    Num { bits: x.to_bits() }
}

fn from_serde(v: &serde_json::Value) -> JsonValue {
    match v {
        serde_json::Value::Null => JsonValue::Null,
        serde_json::Value::Bool(b) => JsonValue::Bool(*b),
        serde_json::Value::Number(n) => JsonValue::Number(JsonNumber {
            value: num(n.as_f64().unwrap()),
            unsigned: n.as_u64(),
        }),
        serde_json::Value::String(s) => JsonValue::String(s.clone()),
        serde_json::Value::Array(a) => JsonValue::Array(a.iter().map(from_serde).collect()),
        serde_json::Value::Object(m) => {
            JsonValue::Object(m.iter().map(|(k, v)| (k.clone(), from_serde(v))).collect())
        }
    }
}

fn js(text: &str) -> JsonValue {
    from_serde(&serde_json::from_str::<serde_json::Value>(text).unwrap())
}

fn value<T: StyleLiteral>(text: &str) -> MlStyleValue<T> {
    MlStyleValue::<T>::from_json(js(text)).unwrap()
}

fn function<T: StyleLiteral>(text: &str) -> Function<T> {
    match js(text) {
        JsonValue::Object(m) => Function::<T>::from_members(&m).unwrap(),
        _ => panic!("expected an object"),
    }
}

#[test]
fn expression_operator_and_args() {
    let e = MlExpr::from_json(js(r#"["interpolate", ["linear"], ["zoom"], 5, 1, 10, 4]"#)).unwrap();
    assert_eq!(e.operator(), Some("interpolate"));
    assert!(matches!(e, MlExpr::Interpolate { ref stops, .. } if stops.len() == 2));
}

#[test]
fn expression_step_operator() {
    let e = MlExpr::from_json(js(r#"["step", ["zoom"], 0.5, 12, 1.0, 15, 2.0]"#)).unwrap();
    assert_eq!(e.operator(), Some("step"));
}

#[test]
fn expression_roundtrip() {
    let v: MlStyleValue<Num> = value(r#"["interpolate", ["linear"], ["zoom"], 5, 1.0, 10, 4.0]"#);
    assert!(v.is_expression());
    assert_eq!(v.as_expression().and_then(|e| e.operator()), Some("interpolate"));
}

#[test]
fn function_stops_only() {
    let f: Function<Num> = function(r#"{"stops": [[5, 1.0], [10, 4.0]]}"#);
    assert_eq!(f.stops.len(), 2);
    assert_eq!(f.stops[0].input, num(5.0));
    assert_eq!(f.stops[0].output, num(1.0));
    assert_eq!(f.base, num(1.0));
    assert!(f.property.is_none());
    assert!(f.function_type.is_none());
    assert!(f.default.is_none());
    assert!(f.color_space.is_none());
}

#[test]
fn function_with_base() {
    let f: Function<Num> = function(r#"{"base": 1.4, "stops": [[5, 1.0], [10, 4.0]]}"#);
    assert_eq!(f.base, num(1.4));
    assert_eq!(f.stops.len(), 2);
}

#[test]
fn function_with_property() {
    let f: Function<String> = function(
        r#"{
            "property": "temperature",
            "stops": [[0, "blue"], [100, "red"]]
        }"#,
    );
    assert_eq!(f.property.as_deref(), Some("temperature"));
    assert_eq!(f.stops[0].output, "blue");
}

#[test]
fn function_with_default() {
    let f: Function<Num> = function(
        r#"{
            "stops": [[0, 1.0]],
            "default": 0.5
        }"#,
    );
    assert_eq!(f.default, Some(num(0.5)));
}

#[test]
fn function_color_stops() {
    let f: Function<String> = function(r#"{"stops": [[6, "hsl(47,79%,94%)"], [14, "hsl(42,49%,93%)"]]}"#);
    assert_eq!(f.stops.len(), 2);
    assert_eq!(f.stops[0].input, num(6.0));
    assert_eq!(f.stops[0].output, "hsl(47,79%,94%)");
}

#[test]
fn function_type_variants() {
    for (s, expected) in [
        ("identity", FunctionType::Identity),
        ("exponential", FunctionType::Exponential),
        ("interval", FunctionType::Interval),
        ("categorical", FunctionType::Categorical),
    ] {
        let f: Function<Num> = function(&format!(r#"{{"type": "{s}", "stops": [[0, 1]]}}"#));
        assert_eq!(f.function_type, Some(expected));
    }
}

#[test]
fn f64_literal() {
    let v: MlStyleValue<Num> = value("2.0");
    assert!(v.is_literal());
    assert_eq!(v.as_literal(), Some(&num(2.0)));
    assert!(!v.is_expression());
    assert!(!v.is_function());
}

#[test]
fn f64_expression() {
    let v: MlStyleValue<Num> = value(r#"["interpolate", ["linear"], ["zoom"], 5, 1.0, 10, 4.0]"#);
    assert!(v.is_expression());
    assert_eq!(v.as_expression().and_then(|e| e.operator()), Some("interpolate"));
    assert!(!v.is_literal());
    assert!(!v.is_function());
}

#[test]
fn f64_function() {
    let v: MlStyleValue<Num> = value(r#"{"base": 1.4, "stops": [[5, 1.0], [10, 4.0]]}"#);
    assert!(v.is_function());
    assert_eq!(v.as_function().map(|f| f.base), Some(num(1.4)));
    assert!(!v.is_literal());
    assert!(!v.is_expression());
}

#[test]
fn f64_step_expression() {
    let v: MlStyleValue<Num> = value(r#"["step", ["zoom"], 0.5, 12, 1.0, 15, 2.0]"#);
    assert_eq!(v.as_expression().and_then(|e| e.operator()), Some("step"));
}

#[test]
fn bool_literal_true() {
    let v: MlStyleValue<bool> = value("true");
    assert_eq!(v.as_literal(), Some(&true));
}

#[test]
fn bool_literal_false() {
    let v: MlStyleValue<bool> = value("false");
    assert_eq!(v.as_literal(), Some(&false));
}

#[test]
fn bool_expression() {
    let v: MlStyleValue<bool> = value(r#"["has", "name"]"#);
    assert!(v.is_expression());
    assert_eq!(v.as_expression().and_then(|e| e.operator()), Some("has"));
}

#[test]
fn string_literal() {
    let v: MlStyleValue<String> = value(r#""butt""#);
    assert_eq!(v.as_literal(), Some(&"butt".to_owned()));
}

#[test]
fn string_expression() {
    let v: MlStyleValue<String> = value(r#"["get", "name"]"#);
    assert!(v.is_expression());
    assert_eq!(v.as_expression().and_then(|e| e.operator()), Some("get"));
}

#[test]
fn maptiler_fill_opacity_function() {
    let v: MlStyleValue<Num> = value(r#"{"stops": [[0, 1], [8, 0.1]]}"#);
    let f = v.as_function().unwrap();
    assert_eq!(f.stops[0].output, num(1.0));
    assert_eq!(f.stops[1].output, num(0.1));
}

#[test]
fn from_impls() {
    assert_eq!(MlStyleValue::from_literal(num(2.5)).as_literal(), Some(&num(2.5)));
    assert_eq!(MlStyleValue::from_literal(true).as_literal(), Some(&true));
    assert_eq!(
        MlStyleValue::from_literal("butt".to_owned()).as_literal(),
        Some(&"butt".to_owned())
    );
}

#[test]
fn style_value_rejections() {
    assert!(MlStyleValue::<Num>::from_json(js(r#""wide""#)).is_none());
    assert!(MlStyleValue::<Num>::from_json(js("[]")).is_none());
    assert!(MlStyleValue::<Num>::from_json(js(r#"{"stops": 3}"#)).is_none());
    assert!(MlStyleValue::<Num>::from_json(js(r#"{"base": 2}"#)).unwrap().is_function());
    assert!(MlStyleValue::<bool>::from_json(js("1")).is_none());
    assert!(MlStyleValue::<MlColor>::from_json(js(r#""nope""#)).is_none());
}

#[test]
fn color_function_stops_fall_back_to_transparent() {
    let f: Function<MlColor> = function(r##"{"stops": [[0, "#fff"], [10, "nope"]], "colorSpace": "lab"}"##);
    assert_eq!((f.stops[0].output.0.r, f.stops[0].output.0.a), (255, 255));
    assert_eq!(f.stops[1].output.0.a, 0);
    assert_eq!(f.color_space, Some(ColorSpace::Lab));
}
