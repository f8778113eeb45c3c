use galileo_maplibre::expr::{Expr, ExprValue};
use galileo_maplibre::json::{JsonNumber, JsonValue, Num};
use galileo_maplibre::ml_expr::MlExpr;

fn num(x: f64) -> Num {
    Num { bits: x.to_bits() }
}

fn from_serde(v: &serde_json::Value) -> JsonValue {
    match v {
        serde_json::Value::Null => JsonValue::Null,
        serde_json::Value::Bool(b) => JsonValue::Bool(*b),
        serde_json::Value::Number(n) => JsonValue::Number(JsonNumber {
            value: num(n.as_f64().unwrap()),
            unsigned: n.as_u64(),
        }),
        serde_json::Value::String(s) => JsonValue::String(s.clone()),
        serde_json::Value::Array(a) => JsonValue::Array(a.iter().map(from_serde).collect()),
        serde_json::Value::Object(m) => {
            JsonValue::Object(m.iter().map(|(k, v)| (k.clone(), from_serde(v))).collect())
        }
    }
}

fn ml(text: &str) -> MlExpr {
    MlExpr::from_json(from_serde(&serde_json::from_str::<serde_json::Value>(text).unwrap())).unwrap()
}

fn get(name: &str) -> Box<Expr> {
    Box::new(Expr::Get(name.to_string()))
}

fn n(x: f64) -> Expr {
    Expr::Value(ExprValue::Number(num(x)))
}

#[test]
fn in_converts_to_membership() {
    assert_eq!(
        ml(r#"["in", "class", 1, 2]"#).to_galileo_expr(),
        Some(Expr::In { needle: get("class"), haystack: vec![n(1.0), n(2.0)] })
    );
}

#[test]
fn not_in_converts_to_negated_membership() {
    assert_eq!(
        ml(r#"["!in", "class", 1, 2]"#).to_galileo_expr(),
        Some(Expr::Not(Box::new(Expr::In { needle: get("class"), haystack: vec![n(1.0), n(2.0)] })))
    );
    assert_eq!(ml(r#"["!in", "$type", 1]"#).to_galileo_expr(), None);
}

#[test]
fn all_converts_part_by_part() {
    assert_eq!(
        ml(r#"["all", ["==", "a", 1], ["has", "b"]]"#).to_galileo_expr(),
        Some(Expr::All(vec![
            Expr::Eq(get("a"), Box::new(n(1.0))),
            Expr::Ne(get("b"), Box::new(Expr::Value(ExprValue::Null))),
        ]))
    );
    assert_eq!(ml(r#"["all", ["==", "a", 1], ["get", "b", {}]]"#).to_galileo_expr(), None);
}
