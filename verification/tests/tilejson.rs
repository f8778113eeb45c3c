use galileo_maplibre::decode::DocumentError;
use galileo_maplibre::json::{JsonNumber, JsonValue, Num};
use galileo_maplibre::tilejson::{is_tilejson_member_name, Scheme, TileJson, VectorLayer};

fn num(x: f64) -> Num {
    Num { bits: x.to_bits() }
}

fn from_serde(v: &serde_json::Value) -> JsonValue {
    match v {
        serde_json::Value::Null => JsonValue::Null,
        serde_json::Value::Bool(b) => JsonValue::Bool(*b),
        serde_json::Value::Number(n) => JsonValue::Number(JsonNumber {
            value: num(n.as_f64().unwrap()),
            unsigned: n.as_u64(),
        }),
        serde_json::Value::String(s) => JsonValue::String(s.clone()),
        serde_json::Value::Array(a) => JsonValue::Array(a.iter().map(from_serde).collect()),
        serde_json::Value::Object(m) => {
            JsonValue::Object(m.iter().map(|(k, v)| (k.clone(), from_serde(v))).collect())
        }
    }
}

fn js(text: &str) -> JsonValue {
    from_serde(&serde_json::from_str::<serde_json::Value>(text).unwrap())
}

fn tilejson(text: &str) -> TileJson {
    TileJson::from_text(text).unwrap()
}

const MINIMAL: &str = r#"{
    "tilejson": "3.0.0",
    "tiles": ["https://example.com/{z}/{x}/{y}.pbf"]
}"#;

#[test]
fn parse_minimal() {
    let tj = tilejson(MINIMAL);
    assert_eq!(tj.tilejson, "3.0.0");
    assert_eq!(tj.tiles, ["https://example.com/{z}/{x}/{y}.pbf"]);
    assert_eq!(tj.minzoom, 0);
    assert_eq!(tj.maxzoom, 30);
    assert!(tj.vector_layers.is_empty());
    assert!(tj.name.is_none());
    assert!(tj.bounds.is_none());
    assert!(tj.center.is_none());
    assert_eq!(tj.scheme, Scheme::Xyz);
}

#[test]
fn tiles_parse_optional_scalars() {
    let json = r#"{
        "tilejson": "3.0.0",
        "tiles": ["https://example.com/{z}/{x}/{y}.pbf"],
        "name": "Test Tiles",
        "description": "A test tileset",
        "attribution": "<a href='https://example.com'>Example</a>",
        "version": "1.2.3",
        "minzoom": 2,
        "maxzoom": 14,
        "scheme": "tms",
        "fillzoom": 10,
        "legend": "red = hot"
    }"#;
    let tj = tilejson(json);
    assert_eq!(tj.name.as_deref(), Some("Test Tiles"));
    assert_eq!(tj.description.as_deref(), Some("A test tileset"));
    assert_eq!(tj.minzoom, 2);
    assert_eq!(tj.maxzoom, 14);
    assert_eq!(tj.scheme, Scheme::Tms);
    assert_eq!(tj.fillzoom, Some(10));
    assert_eq!(tj.version.as_deref(), Some("1.2.3"));
}

#[test]
fn parse_bounds_and_center() {
    let json = r#"{
        "tilejson": "3.0.0",
        "tiles": ["https://example.com/{z}/{x}/{y}.pbf"],
        "bounds": [-180, -85.05, 180, 85.05],
        "center": [-76.27, 39.15, 8]
    }"#;
    let tj = tilejson(json);
    assert_eq!(tj.bounds, Some([num(-180.0), num(-85.05), num(180.0), num(85.05)]));
    assert_eq!(tj.center, Some([num(-76.27), num(39.15), num(8.0)]));
}

#[test]
fn parse_vector_layers() {
    let json = r#"{
        "tilejson": "3.0.0",
        "tiles": ["https://example.com/{z}/{x}/{y}.pbf"],
        "vector_layers": [
            {
                "id": "roads",
                "description": "Roads",
                "minzoom": 5,
                "maxzoom": 14,
                "fields": {"name": "String", "class": "One of: primary, secondary"}
            },
            {
                "id": "water",
                "fields": {}
            }
        ]
    }"#;
    let tj = tilejson(json);
    assert_eq!(tj.vector_layers.len(), 2);
    let roads = &tj.vector_layers[0];
    assert_eq!(roads.id, "roads");
    assert_eq!(roads.description.as_deref(), Some("Roads"));
    assert_eq!(roads.minzoom, 5);
    assert_eq!(roads.maxzoom, 14);
    assert_eq!(roads.field("name").map(|s| s.as_str()), Some("String"));
    let water = &tj.vector_layers[1];
    assert_eq!(water.id, "water");
    assert!(water.fields.is_empty());
}

#[test]
fn invalid_bounds_falls_back_to_none() {
    let json = r#"{
        "tilejson": "3.0.0",
        "tiles": ["https://example.com/{z}/{x}/{y}.pbf"],
        "bounds": "not-an-array"
    }"#;
    let tj = tilejson(json);
    assert!(tj.bounds.is_none());
}

#[test]
fn tiles_invalid_center_falls_back_to_none() {
    let json = r#"{
        "tilejson": "3.0.0",
        "tiles": ["https://example.com/{z}/{x}/{y}.pbf"],
        "center": "invalid"
    }"#;
    let tj = tilejson(json);
    assert!(tj.center.is_none());
}

#[test]
fn unknown_fields_are_tolerated() {
    let json = r#"{
        "tilejson": "3.0.0",
        "tiles": ["https://example.com/{z}/{x}/{y}.pbf"],
        "custom_extension": "some_value",
        "format": "pbf"
    }"#;
    TileJson::from_json(&js(json)).unwrap();
}

#[test]
fn tilejson_strict_members() {
    assert_eq!(TileJson::from_json(&js("\"x\"")), Err(DocumentError::NotAnObject));
    assert_eq!(TileJson::from_json(&js(r#"{"tiles": []}"#)), Err(DocumentError::InvalidField));
    assert_eq!(
        TileJson::from_json(&js(r#"{"tilejson": "3.0.0", "tiles": [], "scheme": "wms"}"#)),
        Err(DocumentError::InvalidField)
    );
    assert_eq!(
        TileJson::from_json(&js(r#"{"tilejson": "3.0.0", "tiles": [], "fillzoom": 300}"#)),
        Err(DocumentError::InvalidField)
    );
    assert_eq!(
        TileJson::from_json(&js(r#"{"tilejson": "3.0.0", "tiles": [], "vector_layers": [{"id": "a"}]}"#)),
        Err(DocumentError::InvalidField)
    );
    let tj = tilejson(r#"{"tilejson": "3.0.0", "tiles": [], "minzoom": -1, "maxzoom": 3.5, "grids": ["g"]}"#);
    assert_eq!(tj.minzoom, 0);
    assert_eq!(tj.maxzoom, 30);
    assert_eq!(tj.grids, vec!["g".to_string()]);
}

#[test]
fn vector_layer_needs_id_and_fields() {
    assert!(VectorLayer::from_json(&js(r#"{"id": "a", "fields": {"x": 1}}"#)).is_none());
    let l = VectorLayer::from_json(&js(r#"{"id": "a", "fields": {"x": "Number"}, "maxzoom": 999}"#)).unwrap();
    assert_eq!(l.maxzoom, 30);
    assert_eq!(l.field("y"), None);
}


#[test]
fn unknown_tilejson_members_change_nothing() {
    let plain = r#"{"tilejson": "3.0.0", "tiles": ["t"], "maxzoom": 12}"#;
    let extra = r#"{"tilejson": "3.0.0", "tiles": ["t"], "maxzoom": 12, "format": "pbf", "zz": null}"#;
    assert_eq!(TileJson::from_json(&js(plain)), TileJson::from_json(&js(extra)));
}

#[test]
fn tilejson_member_names() {
    assert!(is_tilejson_member_name("vector_layers"));
    assert!(!is_tilejson_member_name("format"));
}

#[test]
fn tilejson_text_that_is_no_json_or_no_object_is_refused() {
    assert_eq!(TileJson::from_text("{"), Err(DocumentError::NotJson));
    assert_eq!(TileJson::from_text("\"x\""), Err(DocumentError::NotAnObject));
    let text = r#"{"tilejson": "3.0.0", "tiles": ["https://t.example.com/{z}/{x}/{y}.pbf"], "maxzoom": 15}"#;
    assert_eq!(TileJson::from_text(text), TileJson::from_json(&js(text)));
    assert_eq!(TileJson::from_text(text).unwrap().maxzoom, 15);
}
