use galileo_maplibre::decode::DocumentError;
use galileo_maplibre::json::{JsonNumber, JsonValue, Num};
use galileo_maplibre::style::layer::{Layer, Visibility};
use galileo_maplibre::style::value::MlStyleValue;
use galileo_maplibre::style::source::is_source_member_name;
use galileo_maplibre::style::{is_style_member_name, MaplibreStyle, Sprite, Transition};

fn num(x: f64) -> Num {
    Num { bits: x.to_bits() }
}

fn from_serde(v: &serde_json::Value) -> JsonValue {
    match v {
        serde_json::Value::Null => JsonValue::Null,
        serde_json::Value::Bool(b) => JsonValue::Bool(*b),
        serde_json::Value::Number(n) => JsonValue::Number(JsonNumber {
            value: num(n.as_f64().unwrap()),
            unsigned: n.as_u64(),
        }),
        serde_json::Value::String(s) => JsonValue::String(s.clone()),
        serde_json::Value::Array(a) => JsonValue::Array(a.iter().map(from_serde).collect()),
        serde_json::Value::Object(m) => {
            JsonValue::Object(m.iter().map(|(k, v)| (k.clone(), from_serde(v))).collect())
        }
    }
}

fn js(text: &str) -> JsonValue {
    from_serde(&serde_json::from_str::<serde_json::Value>(text).unwrap())
}

fn style(text: &str) -> MaplibreStyle {
    MaplibreStyle::from_text(text).unwrap()
}

const MINIMAL: &str = r#"{
    "version": 8,
    "sources": {},
    "layers": []
}"#;

#[test]
fn parse_minimal_style() {
    let style = style(MINIMAL);
    assert_eq!(style.version, 8);
    assert!(style.name.is_none());
    assert!(style.sources.is_empty());
    assert!(style.layers.is_empty());
    assert_eq!(style.bearing, num(0.0));
    assert_eq!(style.pitch, num(0.0));
}

#[test]
fn mod_parse_optional_scalars() {
    let json = r#"{
        "version": 8,
        "name": "Test Style",
        "center": [-73.97, 40.77],
        "zoom": 12.5,
        "bearing": 29.0,
        "pitch": 50.0,
        "glyphs": "https://example.com/fonts/{fontstack}/{range}.pbf",
        "sources": {},
        "layers": []
    }"#;
    let style = style(json);
    assert_eq!(style.name.as_deref(), Some("Test Style"));
    assert_eq!(style.center, Some([num(-73.97), num(40.77)]));
    assert_eq!(style.zoom, Some(num(12.5)));
    assert_eq!(style.bearing, num(29.0));
    assert_eq!(style.pitch, num(50.0));
    assert_eq!(
        style.glyphs.as_deref(),
        Some("https://example.com/fonts/{fontstack}/{range}.pbf")
    );
}

#[test]
fn parse_sprite_url() {
    let json = r#"{
        "version": 8,
        "sprite": "https://example.com/sprite",
        "sources": {},
        "layers": []
    }"#;
    let style = style(json);
    assert_eq!(style.sprite, Some(Sprite::Url("https://example.com/sprite".into())));
}

#[test]
fn parse_sprite_entries() {
    let json = r#"{
        "version": 8,
        "sprite": [
            {"id": "default", "url": "https://example.com/sprite"},
            {"id": "extra",   "url": "https://example.com/extra-sprite"}
        ],
        "sources": {},
        "layers": []
    }"#;
    let style = style(json);
    let Sprite::Entries(entries) = style.sprite.unwrap() else {
        panic!("expected Entries");
    };
    assert_eq!(entries.len(), 2);
    assert_eq!(entries[0].id, "default");
}

#[test]
fn parse_transition() {
    let json = r#"{
        "version": 8,
        "transition": {"duration": 300, "delay": 0},
        "sources": {},
        "layers": []
    }"#;
    let style = style(json);
    assert_eq!(style.transition.duration, Some(num(300.0)));
    assert_eq!(style.transition.delay, Some(num(0.0)));
}

#[test]
fn parse_sources_in_style() {
    let json = r#"{
        "version": 8,
        "sources": {
            "my_tiles": {"type": "vector", "url": "https://example.com/tiles.json"}
        },
        "layers": []
    }"#;
    let style = style(json);
    assert!(style.source("my_tiles").is_some());
}

#[test]
fn bad_source_is_skipped() {
    let json = r#"{
        "version": 8,
        "sources": {
            "good": {"type": "vector", "url": "https://example.com/tiles.json"},
            "bad":  {"type": "nonexistent"}
        },
        "layers": []
    }"#;
    let style = style(json);
    assert!(style.source("good").is_some());
    assert!(style.source("bad").is_none());
}

#[test]
fn parse_maptiler_style_root() {
    let json = r#"{
        "version": 8,
        "id": "streets-v2",
        "name": "Streets",
        "sources": {
            "maptiler_attribution": {
                "attribution": "© MapTiler",
                "type": "vector"
            },
            "maptiler_planet": {
                "url": "https://api.maptiler.com/tiles/v3/tiles.json?key=xxx",
                "type": "vector"
            }
        },
        "layers": [],
        "glyphs": "https://api.maptiler.com/fonts/{fontstack}/{range}.pbf?key=xxx",
        "sprite": "https://api.maptiler.com/maps/streets-v2/sprite",
        "bearing": 0,
        "pitch": 0,
        "center": [0, 0],
        "zoom": 1
    }"#;
    let style = style(json);
    assert_eq!(style.version, 8);
    assert_eq!(style.name.as_deref(), Some("Streets"));
    assert_eq!(style.sources.len(), 2);
    assert_eq!(style.zoom, Some(num(1.0)));
    assert_eq!(style.center, Some([num(0.0), num(0.0)]));
    assert!(matches!(style.sprite, Some(Sprite::Url(_))));
}

#[test]
fn unknown_top_level_field_is_tolerated() {
    let json = r#"{
        "version": 8,
        "id": "my-style",
        "foo": 42,
        "sources": {},
        "layers": []
    }"#;
    MaplibreStyle::from_text(json).unwrap();
}

#[test]
fn invalid_version_is_tolerated() {
    let json = r#"{
        "version": 7,
        "sources": {},
        "layers": []
    }"#;
    let style = style(json);
    assert_eq!(style.version, 7);
}

#[test]
fn invalid_bearing_falls_back_to_default() {
    let json = r#"{
        "version": 8,
        "bearing": "not-a-number",
        "sources": {},
        "layers": []
    }"#;
    let style = style(json);
    assert_eq!(style.bearing, num(0.0));
}

#[test]
fn invalid_pitch_falls_back_to_default() {
    let json = r#"{
        "version": 8,
        "pitch": true,
        "sources": {},
        "layers": []
    }"#;
    let style = style(json);
    assert_eq!(style.pitch, num(0.0));
}

#[test]
fn invalid_zoom_falls_back_to_none() {
    let json = r#"{
        "version": 8,
        "zoom": "far",
        "sources": {},
        "layers": []
    }"#;
    let style = style(json);
    assert!(style.zoom.is_none());
}

#[test]
fn mod_invalid_center_falls_back_to_none() {
    let json = r#"{
        "version": 8,
        "center": "not-an-array",
        "sources": {},
        "layers": []
    }"#;
    let style = style(json);
    assert!(style.center.is_none());
}

#[test]
fn invalid_sprite_falls_back_to_none() {
    let json = r#"{
        "version": 8,
        "sprite": 42,
        "sources": {},
        "layers": []
    }"#;
    let style = style(json);
    assert!(style.sprite.is_none());
}

#[test]
fn invalid_transition_falls_back_to_default() {
    let json = r#"{
        "version": 8,
        "transition": "instant",
        "sources": {},
        "layers": []
    }"#;
    let style = style(json);
    assert_eq!(style.transition, Transition::default());
}

#[test]
fn style_requires_version_sources_and_layers() {
    assert_eq!(MaplibreStyle::from_text("[]"), Err(DocumentError::NotAnObject));
    assert_eq!(
        MaplibreStyle::from_text(r#"{"sources": {}, "layers": []}"#),
        Err(DocumentError::InvalidField)
    );
    assert_eq!(
        MaplibreStyle::from_text(r#"{"version": 8, "layers": []}"#),
        Err(DocumentError::InvalidField)
    );
    assert_eq!(
        MaplibreStyle::from_text(r#"{"version": 8, "sources": {}}"#),
        Err(DocumentError::InvalidField)
    );
    assert_eq!(
        MaplibreStyle::from_text(r#"{"version": 8.5, "sources": {}, "layers": []}"#),
        Err(DocumentError::InvalidField)
    );
    assert_eq!(
        MaplibreStyle::from_text(r#"{"version": 8, "name": 3, "sources": {}, "layers": []}"#),
        Err(DocumentError::InvalidField)
    );
}

#[test]
fn layers_are_read_and_bad_ones_skipped() {
    let json = r##"{
        "version": 8,
        "sources": {"t": {"type": "vector", "url": "https://example.com/tiles.json"}},
        "layers": [
            {"id": "bg", "type": "background", "paint": {"background-color": "#ff0000"}},
            {"id": "water", "type": "fill", "source": "t", "source-layer": "water",
             "filter": ["==", ["get", "class"], "lake"], "paint": {"fill-opacity": 0.5}},
            {"id": "roads", "type": "line", "source": "t", "layout": {"visibility": "none"},
             "paint": {"line-width": 2}},
            {"id": "labels", "type": "symbol", "source": "t"},
            {"id": "broken", "type": "fill", "paint": 5},
            {"id": "mystery", "type": "teapot"},
            {"type": "line"}
        ]
    }"##;
    let style = style(json);
    assert_eq!(style.layers.len(), 4);
    let Layer::Background(bg) = &style.layers[0] else {
        panic!("expected background")
    };
    assert_eq!(bg.id, "bg");
    match &bg.paint.background_color {
        MlStyleValue::Literal(c) => {
            assert_eq!((c.0.r, c.0.g, c.0.b, c.0.a), (255, 0, 0, 255));
        }
        other => panic!("unexpected {other:?}"),
    }
    let Layer::Fill(water) = &style.layers[1] else {
        panic!("expected fill")
    };
    assert_eq!(water.source.as_deref(), Some("t"));
    assert_eq!(water.source_layer.as_deref(), Some("water"));
    assert!(water.filter.is_some());
    assert_eq!(water.paint.fill_opacity, MlStyleValue::Literal(num(0.5)));
    let Layer::Line(roads) = &style.layers[2] else {
        panic!("expected line")
    };
    assert_eq!(roads.layout.visibility, Visibility::Hidden);
    assert_eq!(roads.paint.line_width, MlStyleValue::Literal(num(2.0)));
    assert_eq!(roads.paint.line_opacity, MlStyleValue::Literal(num(1.0)));
    assert_eq!(style.layers[3].layer_type(), "symbol");
    assert_eq!(style.layers[3].id(), "labels");
}

#[test]
fn layer_paint_defaults_and_fallbacks() {
    let l = Layer::from_json(js(r#"{"id": "f", "type": "fill", "paint": {"fill-color": "not a color", "fill-opacity": null}}"#))
        .unwrap();
    let Layer::Fill(f) = l else { panic!("expected fill") };
    match &f.paint.fill_color {
        MlStyleValue::Literal(c) => assert_eq!((c.0.r, c.0.g, c.0.b, c.0.a), (0, 0, 0, 255)),
        other => panic!("unexpected {other:?}"),
    }
    assert_eq!(f.paint.fill_opacity, MlStyleValue::Literal(num(1.0)));
    assert!(f.minzoom.is_none());
    let b = Layer::from_json(js(r#"{"id": "b", "type": "background", "minzoom": 3, "maxzoom": "x"}"#)).unwrap();
    let Layer::Background(b) = b else { panic!("expected background") };
    assert_eq!(b.minzoom, Some(num(3.0)));
    assert_eq!(b.maxzoom, None);
    match &b.paint.background_color {
        MlStyleValue::Literal(c) => assert_eq!(c.0.a, 0),
        other => panic!("unexpected {other:?}"),
    }
    assert_eq!(Layer::from_json(js("3")), Err(DocumentError::NotAnObject));
    assert_eq!(
        Layer::from_json(js(r#"{"id": "f", "type": "fill", "filter": true}"#)),
        Err(DocumentError::InvalidField)
    );
}

#[test]
fn unknown_members_change_nothing() {
    let plain = r#"{"version": 8, "zoom": 3, "sources": {}, "layers": []}"#;
    let extra = r#"{"version": 8, "zoom": 3, "sources": {}, "layers": [], "owner": {"x": [1, 2]}}"#;
    assert_eq!(MaplibreStyle::from_text(plain), MaplibreStyle::from_text(extra));
}

#[test]
fn unreadable_entries_change_nothing() {
    let plain = r#"{"version": 8,
        "sources": {"a": {"type": "raster", "tiles": []}},
        "layers": [{"id": "bg", "type": "background"}]}"#;
    let extra = r#"{"version": 8,
        "sources": {"a": {"type": "raster", "tiles": []}, "b": {"type": "raster", "tiles": "x"}},
        "layers": [{"id": "bg", "type": "background"}, {"id": "l", "type": "line", "layout": 1}]}"#;
    assert_eq!(MaplibreStyle::from_text(plain), MaplibreStyle::from_text(extra));
}

#[test]
fn member_names_that_are_read() {
    assert!(is_style_member_name("centerAltitude"));
    assert!(!is_style_member_name("id"));
    assert!(is_source_member_name("clusterMaxZoom"));
    assert!(!is_source_member_name("name"));
}

fn doc_with_sources(sources: Vec<(&str, &str)>) -> JsonValue {
    JsonValue::Object(vec![
        ("version".to_string(), js("8")),
        (
            "sources".to_string(),
            JsonValue::Object(sources.into_iter().map(|(k, v)| (k.to_string(), js(v))).collect()),
        ),
        ("layers".to_string(), js("[]")),
    ])
}

#[test]
fn repeated_source_name_keeps_the_last_entry() {
    let doc = doc_with_sources(vec![
        ("a", r#"{"type": "vector", "url": "https://one.example.com/tiles.json"}"#),
        ("b", r#"{"type": "vector", "url": "https://b.example.com/tiles.json"}"#),
        ("a", r#"{"type": "vector", "url": "https://two.example.com/tiles.json"}"#),
    ]);
    let st = MaplibreStyle::from_json(doc).unwrap();
    let names: Vec<&str> = st.sources.iter().map(|(n, _)| n.as_str()).collect();
    assert_eq!(names, vec!["b", "a"]);
    let direct = MaplibreStyle::from_json(doc_with_sources(vec![(
        "a",
        r#"{"type": "vector", "url": "https://two.example.com/tiles.json"}"#,
    )]))
    .unwrap();
    assert_eq!(st.source("a"), direct.source("a"));
}

#[test]
fn repeated_source_name_with_unreadable_last_entry_is_dropped() {
    let doc = doc_with_sources(vec![
        ("a", r#"{"type": "vector", "url": "https://one.example.com/tiles.json"}"#),
        ("a", r#"{"type": "nonexistent"}"#),
    ]);
    let st = MaplibreStyle::from_json(doc).unwrap();
    assert!(st.source("a").is_none());
    assert!(st.sources.is_empty());
}

#[test]
fn circle_layer_keeps_paint_and_layout() {
    let l = Layer::from_json(js(r##"{
        "id": "pts", "type": "circle", "source": "s", "source-layer": "poi",
        "minzoom": 3, "filter": ["==", "kind", "shop"],
        "layout": {"visibility": "none", "circle-sort-key": 2},
        "paint": {"circle-color": "#ff0000", "circle-radius": 4, "circle-blur": null}
    }"##))
    .unwrap();
    let Layer::Circle(c) = &l else { panic!("expected circle") };
    assert_eq!(c.id, "pts");
    assert_eq!(c.source.as_deref(), Some("s"));
    assert_eq!(c.source_layer.as_deref(), Some("poi"));
    assert_eq!(c.minzoom, Some(num(3.0)));
    assert_eq!(c.maxzoom, None);
    assert_eq!(c.filter, Some(js(r#"["==", "kind", "shop"]"#)));
    assert_eq!(c.layout.visibility, Visibility::Hidden);
    assert_eq!(c.layout.circle_sort_key, Some(js("2")));
    assert_eq!(c.paint.circle_color, Some(js(r##""#ff0000""##)));
    assert_eq!(c.paint.circle_radius, Some(js("4")));
    assert_eq!(c.paint.circle_blur, None);
    assert_eq!(c.paint.circle_opacity, None);
    assert_eq!(l.layer_type(), "circle");
    assert_eq!(l.source().map(|s| s.as_str()), Some("s"));
}

#[test]
fn other_layer_kinds_are_read_in_full() {
    let h = Layer::from_json(js(r#"{"id": "h", "type": "heatmap", "source": "s", "paint": {"heatmap-radius": 10}}"#)).unwrap();
    let Layer::Heatmap(h) = h else { panic!("expected heatmap") };
    assert_eq!(h.paint.heatmap_radius, Some(js("10")));
    let r = Layer::from_json(js(r#"{"id": "r", "type": "raster", "source": "img", "paint": {"raster-opacity": 0.5}}"#)).unwrap();
    let Layer::Raster(r) = r else { panic!("expected raster") };
    assert_eq!(r.paint.raster_opacity, Some(js("0.5")));
    let e = Layer::from_json(js(r#"{"id": "b", "type": "fill-extrusion", "source": "s", "paint": {"fill-extrusion-height": 20}}"#)).unwrap();
    let Layer::FillExtrusion(e) = e else { panic!("expected fill-extrusion") };
    assert_eq!(e.paint.fill_extrusion_height, Some(js("20")));
    let hs = Layer::from_json(js(r#"{"id": "t", "type": "hillshade", "source": "dem", "paint": {"hillshade-exaggeration": 0.3}}"#)).unwrap();
    let Layer::Hillshade(hs) = hs else { panic!("expected hillshade") };
    assert_eq!(hs.paint.hillshade_exaggeration, Some(js("0.3")));
    let sky = Layer::from_json(js(r#"{"id": "sky", "type": "sky", "source": "ignored", "paint": {"sky-type": "atmosphere"}}"#)).unwrap();
    assert!(sky.source().is_none());
    let Layer::Sky(sky) = sky else { panic!("expected sky") };
    assert_eq!(sky.paint.sky_type, Some(js(r#""atmosphere""#)));
    let slot = Layer::from_json(js(r#"{"id": "middle", "type": "slot", "metadata": {"a": 1}}"#)).unwrap();
    let Layer::Slot(slot) = slot else { panic!("expected slot") };
    assert_eq!(slot.metadata, Some(js(r#"{"a": 1}"#)));
    let clip = Layer::from_json(js(r#"{"id": "c", "type": "clip", "source": "s", "minzoom": 1, "maxzoom": "x", "clip-layer-types": ["3d"]}"#)).unwrap();
    let Layer::Clip(clip) = clip else { panic!("expected clip") };
    assert_eq!(clip.minzoom, Some(num(1.0)));
    assert_eq!(clip.maxzoom, None);
    assert_eq!(clip.clip_layer_types, Some(vec!["3d".to_string()]));
    assert!(Layer::from_json(js(r#"{"id": "c", "type": "clip", "source": "s"}"#)).is_err());
    assert!(Layer::from_json(js(r#"{"id": "c", "type": "circle", "paint": 3}"#)).is_err());
    let sym = Layer::from_json(js(r#"{"id": "labels", "type": "symbol", "source": "s"}"#)).unwrap();
    assert_eq!(sym.layer_type(), "symbol");
}

#[test]
fn style_text_that_is_no_json_or_no_object_is_refused() {
    assert_eq!(MaplibreStyle::from_text("{\"version\": 8,"), Err(DocumentError::NotJson));
    assert_eq!(MaplibreStyle::from_text("not json"), Err(DocumentError::NotJson));
    assert_eq!(MaplibreStyle::from_text("[1, 2]"), Err(DocumentError::NotAnObject));
    assert_eq!(MaplibreStyle::from_text("8"), Err(DocumentError::NotAnObject));
}

#[test]
fn style_text_reads_as_its_json_value() {
    let text = r#"{"version": 8, "name": "x", "sources": {"b": {"type": "vector", "url": "u"}, "a": {"type": "vector", "url": "v"}}, "layers": []}"#;
    let st = MaplibreStyle::from_text(text).unwrap();
    assert_eq!(Ok(st), MaplibreStyle::from_json(js(text)));
    let st = MaplibreStyle::from_text(text).unwrap();
    let names: Vec<&str> = st.sources.iter().map(|(n, _)| n.as_str()).collect();
    assert_eq!(names, vec!["a", "b"]);
    assert_eq!(st.name.as_deref(), Some("x"));
}
