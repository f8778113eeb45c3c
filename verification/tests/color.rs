use galileo_maplibre::color::{parse_css_color, Color, MlColor};

#[test]
fn hex_short() {
    let c = parse_css_color("#f00").unwrap();
    assert_eq!((c.r, c.g, c.b), (255, 0, 0));
}

#[test]
fn hex_long() {
    let c = parse_css_color("#ff8000").unwrap();
    assert_eq!((c.r, c.g, c.b), (255, 128, 0));
}

#[test]
fn rgb() {
    let c = parse_css_color("rgb(10, 20, 30)").unwrap();
    assert_eq!((c.r, c.g, c.b), (10, 20, 30));
}

#[test]
fn rgba() {
    let c = parse_css_color("rgba(10, 20, 30, 0.5)").unwrap();
    assert_eq!((c.r, c.g, c.b, c.a), (10, 20, 30, 128));
}

#[test]
fn hsl_red() {
    let c = parse_css_color("hsl(0, 100%, 50%)").unwrap();
    assert_eq!((c.r, c.g, c.b), (255, 0, 0));
}

#[test]
fn hsla() {
    let c = parse_css_color("hsla(0, 100%, 50%, 0.5)").unwrap();
    assert_eq!((c.r, c.g, c.b, c.a), (255, 0, 0, 128));
}

#[test]
fn color_hex_short() {
    let c = parse_css_color("#f00").unwrap();
    assert_eq!((c.r, c.g, c.b), (255, 0, 0));
}

#[test]
fn color_hex_long() {
    let c = parse_css_color("#ff8000").unwrap();
    assert_eq!((c.r, c.g, c.b), (255, 128, 0));
}

#[test]
fn color_rgb() {
    let c = parse_css_color("rgb(10, 20, 30)").unwrap();
    assert_eq!((c.r, c.g, c.b), (10, 20, 30));
}

#[test]
fn color_rgba() {
    let c = parse_css_color("rgba(10, 20, 30, 0.5)").unwrap();
    assert_eq!((c.r, c.g, c.b, c.a), (10, 20, 30, 128));
}

#[test]
fn color_hsl_red() {
    let c = parse_css_color("hsl(0, 100%, 50%)").unwrap();
    assert_eq!((c.r, c.g, c.b), (255, 0, 0));
}

#[test]
fn color_hsla() {
    let c = parse_css_color("hsla(0, 100%, 50%, 0.5)").unwrap();
    assert_eq!((c.r, c.g, c.b, c.a), (255, 0, 0, 128));
}

#[test]
fn named_color() {
    let c = parse_css_color("red").unwrap();
    assert_eq!((c.r, c.g, c.b), (255, 0, 0));
}

#[test]
fn invalid_color_returns_none() {
    assert!(parse_css_color("not-a-color").is_none());
}

#[test]
fn style_color_from_css() {
    let c = MlColor::from_css("#0000ff").unwrap();
    assert_eq!(c.color(), Color::rgba(0, 0, 255, 255));
    assert!(MlColor::from_css("").is_none());
    assert_eq!(Color::transparent(), Color { r: 0, g: 0, b: 0, a: 0 });
}

#[test]
fn optional_color_member() {
    let null = galileo_maplibre::json::JsonValue::Null;
    assert_eq!(galileo_maplibre::color::deserialize_opt(&null), Some(None));
    let red = galileo_maplibre::json::JsonValue::String("red".to_string());
    assert_eq!(galileo_maplibre::color::deserialize_opt(&red), Some(Some(Color::rgba(255, 0, 0, 255))));
    let bad = galileo_maplibre::json::JsonValue::String("nope".to_string());
    assert_eq!(galileo_maplibre::color::deserialize_opt(&bad), Some(None));
    let num = galileo_maplibre::json::JsonValue::Bool(true);
    assert_eq!(galileo_maplibre::color::deserialize_opt(&num), None);
}
