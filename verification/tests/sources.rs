use std::collections::HashMap;

use galileo_maplibre::json::{JsonNumber, JsonValue, Num};
use galileo_maplibre::style::source::{DemEncoding, Source, SourceError, TileScheme, VectorEncoding};

fn num(x: f64) -> Num {
    Num { bits: x.to_bits() }
}

fn from_serde(v: &serde_json::Value) -> JsonValue {
    match v {
        serde_json::Value::Null => JsonValue::Null,
        serde_json::Value::Bool(b) => JsonValue::Bool(*b),
        serde_json::Value::Number(n) => JsonValue::Number(JsonNumber {
            value: num(n.as_f64().unwrap()),
            unsigned: n.as_u64(),
        }),
        serde_json::Value::String(s) => JsonValue::String(s.clone()),
        serde_json::Value::Array(a) => JsonValue::Array(a.iter().map(from_serde).collect()),
        serde_json::Value::Object(m) => {
            JsonValue::Object(m.iter().map(|(k, v)| (k.clone(), from_serde(v))).collect())
        }
    }
}

fn js(text: &str) -> JsonValue {
    from_serde(&serde_json::from_str::<serde_json::Value>(text).unwrap())
}

fn source(text: &str) -> Source {
    Source::from_json(js(text)).unwrap()
}

fn read_map(text: &str) -> HashMap<String, Source> {
    let mut out = HashMap::new();
    if let JsonValue::Object(members) = js(text) {
        for (key, val) in members {
            if let Ok(s) = Source::from_json(val) {
                out.insert(key, s);
            }
        }
    }
    out
}

#[test]
fn parse_vector_source_with_url() {
    let json = r#"{
        "type": "vector",
        "url": "https://example.com/tiles.json",
        "attribution": "© Example"
    }"#;
    let Source::Vector(v) = source(json) else {
        panic!("expected Vector source");
    };
    assert_eq!(v.url.as_deref(), Some("https://example.com/tiles.json"));
    assert_eq!(v.attribution.as_deref(), Some("© Example"));
    assert_eq!(v.minzoom, num(0.0));
    assert_eq!(v.maxzoom, num(22.0));
    assert_eq!(v.scheme, TileScheme::Xyz);
    assert_eq!(v.encoding, VectorEncoding::Mvt);
}

#[test]
fn parse_vector_source_with_tiles() {
    let json = r#"{
        "type": "vector",
        "tiles": ["https://a.example.com/{z}/{x}/{y}.pbf"],
        "maxzoom": 14,
        "scheme": "tms"
    }"#;
    let Source::Vector(v) = source(json) else {
        panic!("expected Vector source");
    };
    assert_eq!(v.tiles, Some(vec!["https://a.example.com/{z}/{x}/{y}.pbf".to_string()]));
    assert_eq!(v.maxzoom, num(14.0));
    assert_eq!(v.scheme, TileScheme::Tms);
}

#[test]
fn parse_raster_source() {
    let json = r#"{
        "type": "raster",
        "tiles": ["https://example.com/{z}/{x}/{y}.png"],
        "tileSize": 256
    }"#;
    let Source::Raster(r) = source(json) else {
        panic!("expected Raster source");
    };
    assert_eq!(r.tile_size, num(256.0));
    assert_eq!(r.scheme, TileScheme::Xyz);
}

#[test]
fn parse_raster_dem_source() {
    let json = r#"{
        "type": "raster-dem",
        "url": "https://example.com/dem.json",
        "encoding": "terrarium"
    }"#;
    let Source::RasterDem(d) = source(json) else {
        panic!("expected RasterDem source");
    };
    assert_eq!(d.encoding, DemEncoding::Terrarium);
    assert_eq!(d.red_factor, num(1.0));
}

#[test]
fn parse_geojson_source() {
    let json = r#"{
        "type": "geojson",
        "data": "https://example.com/data.geojson",
        "cluster": true,
        "clusterRadius": 80
    }"#;
    let Source::GeoJson(g) = source(json) else {
        panic!("expected GeoJson source");
    };
    assert!(g.cluster);
    assert_eq!(g.cluster_radius, num(80.0));
    assert_eq!(g.tolerance, num(0.375));
}

#[test]
fn parse_video_source() {
    let json = r#"{
        "type": "video",
        "urls": ["https://example.com/video.mp4"],
        "coordinates": [
            [-122.51596391201019, 37.56238816766053],
            [-122.51467645168304, 37.56410183312965],
            [-122.51309394836426, 37.563391708549425],
            [-122.51423120498657, 37.56161849366671]
        ]
    }"#;
    let Source::Video(v) = source(json) else {
        panic!("expected Video source");
    };
    assert_eq!(v.urls, vec!["https://example.com/video.mp4"]);
}

#[test]
fn parse_image_source() {
    let json = r#"{
        "type": "image",
        "url": "https://example.com/image.png",
        "coordinates": [
            [-80.425, 46.437],
            [-71.516, 46.437],
            [-71.516, 37.936],
            [-80.425, 37.936]
        ]
    }"#;
    let Source::Image(i) = source(json) else {
        panic!("expected Image source");
    };
    assert_eq!(i.url, "https://example.com/image.png");
}

#[test]
fn unknown_source_type_returns_error() {
    let json = r#"{"type": "unknown"}"#;
    assert!(Source::from_json(js(json)).is_err());
}

#[test]
fn deserialize_sources_map_skips_invalid() {
    let json = r#"{
        "good": {"type": "vector", "url": "https://example.com/tiles.json"},
        "bad":  {"type": "not-a-real-type"}
    }"#;
    let out = read_map(json);
    assert!(out.contains_key("good"));
    assert!(!out.contains_key("bad"));
}

#[test]
fn parse_maptiler_sources() {
    let json = r#"{
        "maptiler_attribution": {
            "attribution": "<a href=\"https://www.maptiler.com/copyright/\">© MapTiler</a>",
            "type": "vector"
        },
        "maptiler_planet": {
            "url": "https://api.maptiler.com/tiles/v3/tiles.json?key=xxx",
            "type": "vector"
        }
    }"#;
    let out = read_map(json);
    assert_eq!(out.len(), 2);
    let Source::Vector(planet) = &out["maptiler_planet"] else {
        panic!("expected vector");
    };
    assert_eq!(
        planet.url.as_deref(),
        Some("https://api.maptiler.com/tiles/v3/tiles.json?key=xxx")
    );
}

#[test]
fn invalid_minzoom_falls_back_to_default() {
    let json = r#"{"type": "vector", "url": "https://example.com/t.json", "minzoom": "bad"}"#;
    let Source::Vector(v) = source(json) else {
        panic!("expected Vector")
    };
    assert_eq!(v.minzoom, num(0.0));
}

#[test]
fn invalid_maxzoom_falls_back_to_default() {
    let json = r#"{"type": "raster", "tiles": ["https://example.com/{z}/{x}/{y}.png"], "maxzoom": "bad"}"#;
    let Source::Raster(r) = source(json) else {
        panic!("expected Raster")
    };
    assert_eq!(r.maxzoom, num(22.0));
}

#[test]
fn invalid_tile_size_falls_back_to_default() {
    let json = r#"{"type": "raster", "tiles": ["https://example.com/{z}/{x}/{y}.png"], "tileSize": [512]}"#;
    let Source::Raster(r) = source(json) else {
        panic!("expected Raster")
    };
    assert_eq!(r.tile_size, num(512.0));
}

#[test]
fn invalid_scheme_falls_back_to_default() {
    let json = r#"{"type": "vector", "url": "https://example.com/t.json", "scheme": "not-a-scheme"}"#;
    let Source::Vector(v) = source(json) else {
        panic!("expected Vector")
    };
    assert_eq!(v.scheme, TileScheme::Xyz);
}

#[test]
fn invalid_vector_encoding_falls_back_to_default() {
    let json = r#"{"type": "vector", "url": "https://example.com/t.json", "encoding": 42}"#;
    let Source::Vector(v) = source(json) else {
        panic!("expected Vector")
    };
    assert_eq!(v.encoding, VectorEncoding::Mvt);
}

#[test]
fn invalid_dem_encoding_falls_back_to_default() {
    let json = r#"{"type": "raster-dem", "url": "https://example.com/dem.json", "encoding": "bogus"}"#;
    let Source::RasterDem(d) = source(json) else {
        panic!("expected RasterDem")
    };
    assert_eq!(d.encoding, DemEncoding::Mapbox);
}

#[test]
fn invalid_red_factor_falls_back_to_default() {
    let json = r#"{"type": "raster-dem", "url": "https://example.com/dem.json", "redFactor": "x"}"#;
    let Source::RasterDem(d) = source(json) else {
        panic!("expected RasterDem")
    };
    assert_eq!(d.red_factor, num(1.0));
}

#[test]
fn invalid_buffer_falls_back_to_default() {
    let json = r#"{"type": "geojson", "data": "https://example.com/d.json", "buffer": "wide"}"#;
    let Source::GeoJson(g) = source(json) else {
        panic!("expected GeoJson")
    };
    assert_eq!(g.buffer, num(128.0));
}

#[test]
fn invalid_tolerance_falls_back_to_default() {
    let json = r#"{"type": "geojson", "data": "https://example.com/d.json", "tolerance": null}"#;
    let Source::GeoJson(g) = source(json) else {
        panic!("expected GeoJson")
    };
    assert_eq!(g.tolerance, num(0.375));
}

#[test]
fn invalid_cluster_radius_falls_back_to_default() {
    let json = r#"{"type": "geojson", "data": "https://example.com/d.json", "clusterRadius": "big"}"#;
    let Source::GeoJson(g) = source(json) else {
        panic!("expected GeoJson")
    };
    assert_eq!(g.cluster_radius, num(50.0));
}

#[test]
fn invalid_geojson_maxzoom_falls_back_to_default() {
    let json = r#"{"type": "geojson", "data": "https://example.com/d.json", "maxzoom": "high"}"#;
    let Source::GeoJson(g) = source(json) else {
        panic!("expected GeoJson")
    };
    assert_eq!(g.maxzoom, num(18.0));
}

#[test]
fn source_error_kinds() {
    assert_eq!(Source::from_json(js("[1, 2]")), Err(SourceError::NotAnObject));
    assert_eq!(Source::from_json(js(r#"{"url": "x"}"#)), Err(SourceError::MissingType));
    assert_eq!(Source::from_json(js(r#"{"type": 5}"#)), Err(SourceError::MissingType));
    assert_eq!(
        Source::from_json(js(r#"{"type": "tiles"}"#)),
        Err(SourceError::UnknownType("tiles".to_string()))
    );
    assert_eq!(
        Source::from_json(js(r#"{"type": "vector", "url": 7}"#)),
        Err(SourceError::InvalidField)
    );
    assert_eq!(
        Source::from_json(js(r#"{"type": "vector", "volatile": null}"#)),
        Err(SourceError::InvalidField)
    );
    assert_eq!(Source::from_json(js(r#"{"type": "geojson"}"#)), Err(SourceError::InvalidField));
    assert_eq!(
        Source::from_json(js(r#"{"type": "image", "url": "x", "coordinates": [[0, 0], [1, 1], [2, 2]]}"#)),
        Err(SourceError::InvalidField)
    );
}

#[test]
fn source_payloads_are_kept() {
    let json = r#"{"type": "geojson", "data": {"type": "FeatureCollection"}, "promoteId": "fid",
                   "clusterProperties": null, "clusterMaxZoom": 12, "baseShift": "ignored"}"#;
    let Source::GeoJson(g) = source(json) else {
        panic!("expected GeoJson")
    };
    assert_eq!(g.data, js(r#"{"type": "FeatureCollection"}"#));
    assert_eq!(g.promote_id, Some(JsonValue::String("fid".to_string())));
    assert_eq!(g.cluster_properties, None);
    assert_eq!(g.cluster_max_zoom, Some(num(12.0)));
    let Source::RasterDem(d) =
        source(r#"{"type": "raster-dem", "baseShift": 2.5, "bounds": [1, 2, 3, 4], "volatile": true}"#)
    else {
        panic!("expected RasterDem")
    };
    assert_eq!(d.base_shift, num(2.5));
    assert_eq!(d.bounds, Some([num(1.0), num(2.0), num(3.0), num(4.0)]));
    assert!(d.volatile);
}

#[test]
fn unknown_source_members_change_nothing() {
    let plain = r#"{"type": "vector", "url": "u", "minzoom": 2}"#;
    let extra = r#"{"type": "vector", "url": "u", "minzoom": 2, "name": 5, "extra": [true]}"#;
    assert_eq!(Source::from_json(js(plain)), Source::from_json(js(extra)));
}
