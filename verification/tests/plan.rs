use galileo_maplibre::color::Color;
use galileo_maplibre::json::{JsonNumber, JsonValue, Num};
use galileo_maplibre::ml_expr::{parse_stop_pairs, MlExpr, MlExprError};
use galileo_maplibre::plan::{build_inner_layers, build_rules, get_background, ColorPlan, SymbolPlan};
use galileo_maplibre::style::MaplibreStyle;

fn num(x: f64) -> Num {
    Num { bits: x.to_bits() }
}

fn from_serde(v: &serde_json::Value) -> JsonValue {
    match v {
        serde_json::Value::Null => JsonValue::Null,
        serde_json::Value::Bool(b) => JsonValue::Bool(*b),
        serde_json::Value::Number(n) => JsonValue::Number(JsonNumber {
            value: num(n.as_f64().unwrap()),
            unsigned: n.as_u64(),
        }),
        serde_json::Value::String(s) => JsonValue::String(s.clone()),
        serde_json::Value::Array(a) => JsonValue::Array(a.iter().map(from_serde).collect()),
        serde_json::Value::Object(m) => {
            JsonValue::Object(m.iter().map(|(k, v)| (k.clone(), from_serde(v))).collect())
        }
    }
}

fn js(text: &str) -> JsonValue {
    from_serde(&serde_json::from_str::<serde_json::Value>(text).unwrap())
}

const STYLE: &str = r##"{
    "version": 8,
    "sources": {
        "b": {"type": "vector", "tiles": ["https://b.example.com/{z}/{x}/{y}.pbf"]},
        "a": {"type": "vector", "tiles": ["https://a.example.com/{z}/{x}/{y}.pbf"]}
    },
    "layers": [
        {"id": "land", "type": "fill", "source": "a", "source-layer": "land", "paint": {"fill-color": "#00ff00"}},
        {"id": "bg", "type": "background", "paint": {"background-color": "#0000ff"}},
        {"id": "roads", "type": "line", "source": "b", "source-layer": "roads", "paint": {"line-color": ["get", "c"]}},
        {"id": "dashed", "type": "line", "source": "a", "source-layer": "paths", "paint": {"line-dasharray": [1, 2]}},
        {"id": "late-bg", "type": "background", "paint": {"background-color": "#ff0000"}},
        {"id": "pts", "type": "circle", "source": "a", "source-layer": "poi"},
        {"id": "water", "type": "fill", "source": "a", "source-layer": "water"}
    ]
}"##;

fn style() -> MaplibreStyle {
    MaplibreStyle::from_text(STYLE).unwrap()
}

#[test]
fn background_comes_from_the_first_background_layer() {
    let st = style();
    let refs: Vec<_> = st.layers.iter().collect();
    assert_eq!(
        get_background(&refs),
        ColorPlan::Simple { color: Color { r: 0, g: 0, b: 255, a: 255 }, opacity: num(1.0) }
    );
    let without: Vec<_> = st.layers.iter().filter(|l| l.layer_type() != "background").collect();
    assert_eq!(get_background(&without), ColorPlan::Fixed(Color { r: 0, g: 0, b: 0, a: 0 }));
}

#[test]
fn rules_come_from_fill_and_line_layers_in_order() {
    let st = style();
    let refs: Vec<_> = st.layers.iter().collect();
    let rules = build_rules(&refs);
    let names: Vec<&str> = rules.iter().map(|r| r.layer_name.as_str()).collect();
    // The dashed line, the backgrounds and the circle layer give no rule.
    assert_eq!(names, vec!["land", "roads", "water"]);
    assert!(rules.len() <= refs.len());
    match &rules[1].symbol {
        SymbolPlan::Line { width, stroke_color } => {
            assert_eq!(*stroke_color, ColorPlan::Fixed(Color { r: 0, g: 0, b: 0, a: 0 }));
            assert_eq!(*width, galileo_maplibre::plan::TileValue::Simple(num(1.0)));
        }
        other => panic!("expected a line symbol, got {other:?}"),
    }
}

#[test]
fn inner_layers_follow_first_use_of_sources() {
    let st = style();
    let plans = build_inner_layers(&st);
    let names: Vec<&str> = plans.iter().map(|(n, _)| n.as_str()).collect();
    assert_eq!(names, vec!["a", "b"]);
    assert_eq!(plans[0].1.rules.len(), 2);
    assert_eq!(plans[1].1.rules.len(), 1);
}

#[test]
fn stop_pairs_are_read_by_index() {
    let mut args = vec![js("1"), js(r#""a""#), js("5"), js("2")];
    assert_eq!(
        parse_stop_pairs(&mut args, "step"),
        Ok(vec![(num(1.0), MlExpr::Literal(js(r#""a""#))), (num(5.0), MlExpr::Literal(js("2")))])
    );
    assert!(args.is_empty());
    let mut odd = vec![js("1"), js("2"), js("3")];
    assert_eq!(
        parse_stop_pairs(&mut odd, "step"),
        Err(MlExprError::UnpairedStops { op: "step", count: 3 })
    );
    assert_eq!(odd, vec![js("1"), js("2"), js("3")]);
    assert_eq!(
        parse_stop_pairs(&mut vec![js(r#""x""#), js("2")], "step"),
        Err(MlExprError::StopInputNotNumber(js(r#""x""#)))
    );
}
