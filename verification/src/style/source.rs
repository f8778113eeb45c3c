//! Style sources: the data that layers are drawn from.

use vstd::prelude::*;
use crate::decode::{
    bool_field, corners_of, member, member_of, num_field, num_of, num_or, num_with_fallback,
    opt_nums_field, opt_num_field, opt_string_field, opt_strings_field, present_value, read_bool,
    read_corners,
    read_num, read_num_or, read_opt_bounds, read_opt_num, read_opt_string, read_opt_strings,
    read_string, read_strings, string_field, strings_of, strings_read_as, take_member,
    variant_name, variant_name_of,
};
use crate::json::{JsonValue, Num};
use crate::text::str_eq;

verus! {

/// The tile coordinate scheme of a source.
#[derive(Debug, Default, Clone, Copy, PartialEq, Eq)]
pub enum TileScheme {
    /// Slippy map tile names (the default).
    #[default]
    Xyz,
    /// The OSGeo TMS scheme.
    Tms,
}

/// The encoding of vector tiles.
#[derive(Debug, Default, Clone, Copy, PartialEq, Eq)]
pub enum VectorEncoding {
    /// Mapbox Vector Tiles (the default).
    #[default]
    Mvt,
    /// MapLibre Vector Tiles.
    Mlt,
}

/// The encoding of raster DEM tiles.
#[derive(Debug, Default, Clone, Copy, PartialEq, Eq)]
pub enum DemEncoding {
    Terrarium,
    /// Mapbox Terrain RGB (the default).
    #[default]
    Mapbox,
    Custom,
}

/// The tile scheme that a name denotes.
pub open spec fn tile_scheme_named(n: Seq<char>) -> Option<TileScheme> {
    if n == "xyz"@ {
        Some(TileScheme::Xyz)
    } else if n == "tms"@ {
        Some(TileScheme::Tms)
    } else {
        None
    }
}

/// The vector encoding that a name denotes.
pub open spec fn vector_encoding_named(n: Seq<char>) -> Option<VectorEncoding> {
    if n == "mvt"@ {
        Some(VectorEncoding::Mvt)
    } else if n == "mlt"@ {
        Some(VectorEncoding::Mlt)
    } else {
        None
    }
}

/// The DEM encoding that a name denotes.
pub open spec fn dem_encoding_named(n: Seq<char>) -> Option<DemEncoding> {
    if n == "terrarium"@ {
        Some(DemEncoding::Terrarium)
    } else if n == "mapbox"@ {
        Some(DemEncoding::Mapbox)
    } else if n == "custom"@ {
        Some(DemEncoding::Custom)
    } else {
        None
    }
}

/// The name of a tile scheme, as written in a style.
pub open spec fn tile_scheme_name(s: TileScheme) -> Seq<char> {
    match s {
        TileScheme::Xyz => "xyz"@,
        TileScheme::Tms => "tms"@,
    }
}

/// The name of a vector encoding, as written in a style.
pub open spec fn vector_encoding_name(e: VectorEncoding) -> Seq<char> {
    match e {
        VectorEncoding::Mvt => "mvt"@,
        VectorEncoding::Mlt => "mlt"@,
    }
}

/// The name of a DEM encoding, as written in a style.
pub open spec fn dem_encoding_name(e: DemEncoding) -> Seq<char> {
    match e {
        DemEncoding::Terrarium => "terrarium"@,
        DemEncoding::Mapbox => "mapbox"@,
        DemEncoding::Custom => "custom"@,
    }
}

/// Each scheme and encoding is read from its own lowercase name, and a name that is read
/// at all is the name of what it reads as, so that distinct names give distinct variants.
pub proof fn law_variants_read_by_their_names(
    s: TileScheme,
    e: VectorEncoding,
    d: DemEncoding,
    n: Seq<char>,
)
    ensures
        tile_scheme_named(tile_scheme_name(s)) == Some(s),
        vector_encoding_named(vector_encoding_name(e)) == Some(e),
        dem_encoding_named(dem_encoding_name(d)) == Some(d),
        tile_scheme_named(n) matches Some(x) ==> n == tile_scheme_name(x),
        vector_encoding_named(n) matches Some(x) ==> n == vector_encoding_name(x),
        dem_encoding_named(n) matches Some(x) ==> n == dem_encoding_name(x),
{
    reveal_strlit("xyz");
    reveal_strlit("tms");
    reveal_strlit("mvt");
    reveal_strlit("mlt");
    reveal_strlit("terrarium");
    reveal_strlit("mapbox");
    reveal_strlit("custom");
    assert("xyz"@[0] != "tms"@[0]);
    assert("mvt"@[1] != "mlt"@[1]);
    assert("mapbox"@[0] != "custom"@[0]);
}

/// Reads a tile scheme; `null` and values that name no scheme give the default, `xyz`.
pub fn tile_scheme_or_default(v: &JsonValue) -> (r: TileScheme)
    ensures
        r == (match variant_name(*v) {
            Some(n) => match tile_scheme_named(n) {
                Some(s) => s,
                None => TileScheme::Xyz,
            },
            None => TileScheme::Xyz,
        }),
{
    match variant_name_of(v) {
        Some(n) => if str_eq(n, "xyz") {
            TileScheme::Xyz
        } else if str_eq(n, "tms") {
            TileScheme::Tms
        } else {
            TileScheme::Xyz
        },
        None => TileScheme::Xyz,
    }
}

/// Reads a vector encoding; `null` and values that name no encoding give the default, `mvt`.
pub fn vector_encoding_or_default(v: &JsonValue) -> (r: VectorEncoding)
    ensures
        r == (match variant_name(*v) {
            Some(n) => match vector_encoding_named(n) {
                Some(e) => e,
                None => VectorEncoding::Mvt,
            },
            None => VectorEncoding::Mvt,
        }),
{
    match variant_name_of(v) {
        Some(n) => if str_eq(n, "mvt") {
            VectorEncoding::Mvt
        } else if str_eq(n, "mlt") {
            VectorEncoding::Mlt
        } else {
            VectorEncoding::Mvt
        },
        None => VectorEncoding::Mvt,
    }
}

/// Reads a DEM encoding; `null` and values that name no encoding give the default, `mapbox`.
pub fn dem_encoding_or_default(v: &JsonValue) -> (r: DemEncoding)
    ensures
        r == (match variant_name(*v) {
            Some(n) => match dem_encoding_named(n) {
                Some(e) => e,
                None => DemEncoding::Mapbox,
            },
            None => DemEncoding::Mapbox,
        }),
{
    match variant_name_of(v) {
        Some(n) => if str_eq(n, "terrarium") {
            DemEncoding::Terrarium
        } else if str_eq(n, "mapbox") {
            DemEncoding::Mapbox
        } else if str_eq(n, "custom") {
            DemEncoding::Custom
        } else {
            DemEncoding::Mapbox
        },
        None => DemEncoding::Mapbox,
    }
}

/// The defaults of the numeric source fields, as binary64 bit patterns.
pub open spec fn default_minzoom_num() -> Num {
    Num { bits: 0 }
}

pub open spec fn default_maxzoom_num() -> Num {
    Num { bits: 0x4036_0000_0000_0000 }
}

pub open spec fn default_tile_size_num() -> Num {
    Num { bits: 0x4080_0000_0000_0000 }
}

pub open spec fn default_factor_num() -> Num {
    Num { bits: 0x3FF0_0000_0000_0000 }
}

pub open spec fn default_geojson_maxzoom_num() -> Num {
    Num { bits: 0x4032_0000_0000_0000 }
}

pub open spec fn default_buffer_num() -> Num {
    Num { bits: 0x4060_0000_0000_0000 }
}

pub open spec fn default_tolerance_num() -> Num {
    Num { bits: 0x3FD8_0000_0000_0000 }
}

pub open spec fn default_cluster_radius_num() -> Num {
    Num { bits: 0x4049_0000_0000_0000 }
}

/// The minimum zoom level of a source that names none: `0.0`.
pub fn default_source_minzoom() -> (r: Num)
    ensures
        r == default_minzoom_num(),
{
    Num { bits: 0 }
}

/// The maximum zoom level of a source that names none: `22.0`.
pub fn default_source_maxzoom() -> (r: Num)
    ensures
        r == default_maxzoom_num(),
{
    Num { bits: 0x4036_0000_0000_0000 }
}

/// The tile size of a raster source that names none: `512.0`.
pub fn default_tile_size() -> (r: Num)
    ensures
        r == default_tile_size_num(),
{
    Num { bits: 0x4080_0000_0000_0000 }
}

/// The channel factor of a DEM source that names none: `1.0`.
pub fn default_factor() -> (r: Num)
    ensures
        r == default_factor_num(),
{
    Num { bits: 0x3FF0_0000_0000_0000 }
}

/// The maximum zoom level of a GeoJSON source that names none: `18.0`.
pub fn default_geojson_maxzoom() -> (r: Num)
    ensures
        r == default_geojson_maxzoom_num(),
{
    Num { bits: 0x4032_0000_0000_0000 }
}

/// The tile buffer of a GeoJSON source that names none: `128.0`.
pub fn default_buffer() -> (r: Num)
    ensures
        r == default_buffer_num(),
{
    Num { bits: 0x4060_0000_0000_0000 }
}

/// The simplification tolerance of a GeoJSON source that names none: `0.375`.
pub fn default_tolerance() -> (r: Num)
    ensures
        r == default_tolerance_num(),
{
    Num { bits: 0x3FD8_0000_0000_0000 }
}

/// The cluster radius of a GeoJSON source that names none: `50.0`.
pub fn default_cluster_radius() -> (r: Num)
    ensures
        r == default_cluster_radius_num(),
{
    Num { bits: 0x4049_0000_0000_0000 }
}

/// Reads a minimum zoom level; `null` and values that are no number give `0.0`.
pub fn minzoom_or_default(v: &JsonValue) -> (r: Num)
    ensures
        r == (match num_of(*v) {
            Some(n) => n,
            None => default_minzoom_num(),
        }),
{
    num_with_fallback(v, default_source_minzoom())
}

/// Reads a maximum zoom level; `null` and values that are no number give `22.0`.
pub fn maxzoom_or_default(v: &JsonValue) -> (r: Num)
    ensures
        r == (match num_of(*v) {
            Some(n) => n,
            None => default_maxzoom_num(),
        }),
{
    num_with_fallback(v, default_source_maxzoom())
}

/// A vector tile source.
#[derive(Debug, PartialEq)]
pub struct VectorSource {
    /// A URL to a TileJSON resource.
    pub url: Option<String>,
    /// Tile URL templates.
    pub tiles: Option<Vec<String>>,
    /// Bounding box `[west, south, east, north]`.
    pub bounds: Option<[Num; 4]>,
    pub scheme: TileScheme,
    pub minzoom: Num,
    pub maxzoom: Num,
    pub attribution: Option<String>,
    pub promote_id: Option<JsonValue>,
    pub volatile: bool,
    pub encoding: VectorEncoding,
}

/// A raster tile source.
#[derive(Debug, PartialEq)]
pub struct RasterSource {
    pub url: Option<String>,
    pub tiles: Option<Vec<String>>,
    pub bounds: Option<[Num; 4]>,
    pub minzoom: Num,
    pub maxzoom: Num,
    pub tile_size: Num,
    pub scheme: TileScheme,
    pub attribution: Option<String>,
    pub volatile: bool,
}

/// A raster digital elevation model source.
#[derive(Debug, PartialEq)]
pub struct RasterDemSource {
    pub url: Option<String>,
    pub tiles: Option<Vec<String>>,
    pub bounds: Option<[Num; 4]>,
    pub minzoom: Num,
    pub maxzoom: Num,
    pub tile_size: Num,
    pub attribution: Option<String>,
    pub encoding: DemEncoding,
    pub red_factor: Num,
    pub blue_factor: Num,
    pub green_factor: Num,
    pub base_shift: Num,
    pub volatile: bool,
}

/// A GeoJSON data source.
#[derive(Debug, PartialEq)]
pub struct GeoJsonSource {
    /// A URL to a GeoJSON file, or inline GeoJSON.
    pub data: JsonValue,
    pub maxzoom: Num,
    pub attribution: Option<String>,
    pub buffer: Num,
    pub tolerance: Num,
    pub cluster: bool,
    pub cluster_radius: Num,
    pub cluster_max_zoom: Option<Num>,
    pub cluster_min_points: Option<Num>,
    pub cluster_properties: Option<JsonValue>,
    pub line_metrics: bool,
    pub generate_id: bool,
    pub promote_id: Option<JsonValue>,
}

/// A video source: video URLs and the four corners `[longitude, latitude]` of the video.
#[derive(Debug, PartialEq)]
pub struct VideoSource {
    pub urls: Vec<String>,
    pub coordinates: [[Num; 2]; 4],
}

/// An image source: an image URL and the four corners `[longitude, latitude]` of the image.
#[derive(Debug, PartialEq)]
pub struct ImageSource {
    pub url: String,
    pub coordinates: [[Num; 2]; 4],
}

/// A data source of a style.
#[derive(Debug, PartialEq)]
pub enum Source {
    Vector(VectorSource),
    Raster(RasterSource),
    RasterDem(RasterDemSource),
    GeoJson(GeoJsonSource),
    Video(VideoSource),
    Image(ImageSource),
}

/// Why a JSON value is no source.
#[derive(Debug, PartialEq)]
pub enum SourceError {
    /// The value is not a JSON object.
    NotAnObject,
    /// The object has no string member `type`.
    MissingType,
    /// `type` names no source type.
    UnknownType(String),
    /// A member of the named source type is missing or malformed.
    InvalidField,
}

/// The tile scheme that a member reads as: absent gives the default.
pub open spec fn tile_scheme_field(m: Option<JsonValue>) -> TileScheme {
    match m {
        Some(v) => match variant_name(v) {
            Some(n) => match tile_scheme_named(n) {
                Some(s) => s,
                None => TileScheme::Xyz,
            },
            None => TileScheme::Xyz,
        },
        None => TileScheme::Xyz,
    }
}

/// The vector encoding that a member reads as: absent gives the default.
pub open spec fn vector_encoding_field(m: Option<JsonValue>) -> VectorEncoding {
    match m {
        Some(v) => match variant_name(v) {
            Some(n) => match vector_encoding_named(n) {
                Some(e) => e,
                None => VectorEncoding::Mvt,
            },
            None => VectorEncoding::Mvt,
        },
        None => VectorEncoding::Mvt,
    }
}

/// The DEM encoding that a member reads as: absent gives the default.
pub open spec fn dem_encoding_field(m: Option<JsonValue>) -> DemEncoding {
    match m {
        Some(v) => match variant_name(v) {
            Some(n) => match dem_encoding_named(n) {
                Some(e) => e,
                None => DemEncoding::Mapbox,
            },
            None => DemEncoding::Mapbox,
        },
        None => DemEncoding::Mapbox,
    }
}

/// `b` holds what an optional bounds member reads as.
pub open spec fn bounds_read_as(b: Option<[Num; 4]>, f: Option<Seq<Num>>) -> bool {
    match f {
        None => b is None,
        Some(ns) => b matches Some(x) && x@ == ns,
    }
}

/// `c` holds the corners `cs`.
pub open spec fn corners_are(c: [[Num; 2]; 4], cs: Seq<Seq<Num>>) -> bool {
    Seq::new(4, |i: int| c@[i]@) == cs
}

/// Reads a member as a tile scheme, the default where it is absent.
fn read_tile_scheme(members: &Vec<(String, JsonValue)>) -> (r: TileScheme)
    ensures
        r == tile_scheme_field(member_of(members@, "scheme"@)),
{
    match member(members, "scheme") {
        Some(v) => tile_scheme_or_default(v),
        None => TileScheme::Xyz,
    }
}

/// Whether the members of a vector source are all well-formed.
pub open spec fn vector_source_ok(m: Seq<(String, JsonValue)>) -> bool {
    &&& opt_string_field(member_of(m, "url"@)) is Some
    &&& opt_strings_field(member_of(m, "tiles"@)) is Some
    &&& opt_nums_field(member_of(m, "bounds"@), 4) is Some
    &&& opt_string_field(member_of(m, "attribution"@)) is Some
    &&& bool_field(member_of(m, "volatile"@)) is Some
}

/// `s` is the vector source that the members describe.
pub open spec fn vector_source_is(m: Seq<(String, JsonValue)>, s: VectorSource) -> bool {
    &&& opt_string_field(member_of(m, "url"@)) == Some(s.url)
    &&& opt_strings_field(member_of(m, "tiles"@)) matches Some(f) && strings_read_as(s.tiles, f)
    &&& opt_nums_field(member_of(m, "bounds"@), 4) matches Some(f) && bounds_read_as(s.bounds, f)
    &&& s.scheme == tile_scheme_field(member_of(m, "scheme"@))
    &&& s.minzoom == num_or(member_of(m, "minzoom"@), default_minzoom_num())
    &&& s.maxzoom == num_or(member_of(m, "maxzoom"@), default_maxzoom_num())
    &&& opt_string_field(member_of(m, "attribution"@)) == Some(s.attribution)
    &&& s.promote_id == present_value(member_of(m, "promoteId"@))
    &&& bool_field(member_of(m, "volatile"@)) == Some(s.volatile)
    &&& s.encoding == vector_encoding_field(member_of(m, "encoding"@))
}

/// A vector source reads its zoom range from `minzoom` and `maxzoom`, each the number written
/// and, where absent, 0 and 22; its encoding is the one its `encoding` names, Mapbox vector
/// tiles where it names none.
pub proof fn law_vector_source_zoom_and_encoding(m: Seq<(String, JsonValue)>, s: VectorSource)
    requires
        vector_source_is(m, s),
    ensures
        member_of(m, "minzoom"@) is None ==> s.minzoom == (Num { bits: 0 }),
        member_of(m, "maxzoom"@) is None ==> s.maxzoom == (Num { bits: 0x4036_0000_0000_0000 }),
        member_of(m, "minzoom"@) matches Some(JsonValue::Number(n)) ==> s.minzoom == n.value,
        member_of(m, "maxzoom"@) matches Some(JsonValue::Number(n)) ==> s.maxzoom == n.value,
        member_of(m, "encoding"@) is None ==> s.encoding == VectorEncoding::Mvt,
        forall|v: JsonValue| member_of(m, "encoding"@) == Some(v) && #[trigger] variant_name(v) == Some(
            vector_encoding_name(VectorEncoding::Mlt),
        ) ==> s.encoding == VectorEncoding::Mlt,
        forall|v: JsonValue| member_of(m, "encoding"@) == Some(v) && #[trigger] variant_name(v) == Some(
            vector_encoding_name(VectorEncoding::Mvt),
        ) ==> s.encoding == VectorEncoding::Mvt,
{
    law_variants_read_by_their_names(TileScheme::Xyz, VectorEncoding::Mlt, DemEncoding::Mapbox, "mlt"@);
    law_variants_read_by_their_names(TileScheme::Xyz, VectorEncoding::Mvt, DemEncoding::Mapbox, "mvt"@);
}

/// A raster source reads its zoom range as a vector source does, and its tile size from
/// `tileSize`, 512 where absent.
pub proof fn law_raster_source_sizes(m: Seq<(String, JsonValue)>, s: RasterSource)
    requires
        raster_source_is(m, s),
    ensures
        member_of(m, "minzoom"@) is None ==> s.minzoom == (Num { bits: 0 }),
        member_of(m, "maxzoom"@) is None ==> s.maxzoom == (Num { bits: 0x4036_0000_0000_0000 }),
        member_of(m, "tileSize"@) is None ==> s.tile_size == (Num { bits: 0x4080_0000_0000_0000 }),
        member_of(m, "minzoom"@) matches Some(JsonValue::Number(n)) ==> s.minzoom == n.value,
        member_of(m, "maxzoom"@) matches Some(JsonValue::Number(n)) ==> s.maxzoom == n.value,
        member_of(m, "tileSize"@) matches Some(JsonValue::Number(n)) ==> s.tile_size == n.value,
{
}

/// Whether the members of a raster source are all well-formed.
pub open spec fn raster_source_ok(m: Seq<(String, JsonValue)>) -> bool {
    &&& opt_string_field(member_of(m, "url"@)) is Some
    &&& opt_strings_field(member_of(m, "tiles"@)) is Some
    &&& opt_nums_field(member_of(m, "bounds"@), 4) is Some
    &&& opt_string_field(member_of(m, "attribution"@)) is Some
    &&& bool_field(member_of(m, "volatile"@)) is Some
}

/// `s` is the raster source that the members describe.
pub open spec fn raster_source_is(m: Seq<(String, JsonValue)>, s: RasterSource) -> bool {
    &&& opt_string_field(member_of(m, "url"@)) == Some(s.url)
    &&& opt_strings_field(member_of(m, "tiles"@)) matches Some(f) && strings_read_as(s.tiles, f)
    &&& opt_nums_field(member_of(m, "bounds"@), 4) matches Some(f) && bounds_read_as(s.bounds, f)
    &&& s.minzoom == num_or(member_of(m, "minzoom"@), default_minzoom_num())
    &&& s.maxzoom == num_or(member_of(m, "maxzoom"@), default_maxzoom_num())
    &&& s.tile_size == num_or(member_of(m, "tileSize"@), default_tile_size_num())
    &&& s.scheme == tile_scheme_field(member_of(m, "scheme"@))
    &&& opt_string_field(member_of(m, "attribution"@)) == Some(s.attribution)
    &&& bool_field(member_of(m, "volatile"@)) == Some(s.volatile)
}

/// Whether the members of a raster DEM source are all well-formed.
pub open spec fn raster_dem_source_ok(m: Seq<(String, JsonValue)>) -> bool {
    &&& opt_string_field(member_of(m, "url"@)) is Some
    &&& opt_strings_field(member_of(m, "tiles"@)) is Some
    &&& opt_nums_field(member_of(m, "bounds"@), 4) is Some
    &&& opt_string_field(member_of(m, "attribution"@)) is Some
    &&& num_field(member_of(m, "baseShift"@), Num { bits: 0 }) is Some
    &&& bool_field(member_of(m, "volatile"@)) is Some
}

/// `s` is the raster DEM source that the members describe.
pub open spec fn raster_dem_source_is(m: Seq<(String, JsonValue)>, s: RasterDemSource) -> bool {
    &&& opt_string_field(member_of(m, "url"@)) == Some(s.url)
    &&& opt_strings_field(member_of(m, "tiles"@)) matches Some(f) && strings_read_as(s.tiles, f)
    &&& opt_nums_field(member_of(m, "bounds"@), 4) matches Some(f) && bounds_read_as(s.bounds, f)
    &&& s.minzoom == num_or(member_of(m, "minzoom"@), default_minzoom_num())
    &&& s.maxzoom == num_or(member_of(m, "maxzoom"@), default_maxzoom_num())
    &&& s.tile_size == num_or(member_of(m, "tileSize"@), default_tile_size_num())
    &&& opt_string_field(member_of(m, "attribution"@)) == Some(s.attribution)
    &&& s.encoding == dem_encoding_field(member_of(m, "encoding"@))
    &&& s.red_factor == num_or(member_of(m, "redFactor"@), default_factor_num())
    &&& s.blue_factor == num_or(member_of(m, "blueFactor"@), default_factor_num())
    &&& s.green_factor == num_or(member_of(m, "greenFactor"@), default_factor_num())
    &&& num_field(member_of(m, "baseShift"@), Num { bits: 0 }) == Some(s.base_shift)
    &&& bool_field(member_of(m, "volatile"@)) == Some(s.volatile)
}

/// Whether the members of a GeoJSON source are all well-formed.
pub open spec fn geojson_source_ok(m: Seq<(String, JsonValue)>) -> bool {
    &&& member_of(m, "data"@) is Some
    &&& opt_string_field(member_of(m, "attribution"@)) is Some
    &&& bool_field(member_of(m, "cluster"@)) is Some
    &&& opt_num_field(member_of(m, "clusterMaxZoom"@)) is Some
    &&& opt_num_field(member_of(m, "clusterMinPoints"@)) is Some
    &&& bool_field(member_of(m, "lineMetrics"@)) is Some
    &&& bool_field(member_of(m, "generateId"@)) is Some
}

/// `s` is the GeoJSON source that the members describe.
pub open spec fn geojson_source_is(m: Seq<(String, JsonValue)>, s: GeoJsonSource) -> bool {
    &&& member_of(m, "data"@) == Some(s.data)
    &&& s.maxzoom == num_or(member_of(m, "maxzoom"@), default_geojson_maxzoom_num())
    &&& opt_string_field(member_of(m, "attribution"@)) == Some(s.attribution)
    &&& s.buffer == num_or(member_of(m, "buffer"@), default_buffer_num())
    &&& s.tolerance == num_or(member_of(m, "tolerance"@), default_tolerance_num())
    &&& bool_field(member_of(m, "cluster"@)) == Some(s.cluster)
    &&& s.cluster_radius == num_or(member_of(m, "clusterRadius"@), default_cluster_radius_num())
    &&& opt_num_field(member_of(m, "clusterMaxZoom"@)) == Some(s.cluster_max_zoom)
    &&& opt_num_field(member_of(m, "clusterMinPoints"@)) == Some(s.cluster_min_points)
    &&& s.cluster_properties == present_value(member_of(m, "clusterProperties"@))
    &&& bool_field(member_of(m, "lineMetrics"@)) == Some(s.line_metrics)
    &&& bool_field(member_of(m, "generateId"@)) == Some(s.generate_id)
    &&& s.promote_id == present_value(member_of(m, "promoteId"@))
}

/// Whether the members of a video source are all well-formed.
pub open spec fn video_source_ok(m: Seq<(String, JsonValue)>) -> bool {
    &&& member_of(m, "urls"@) matches Some(u) && strings_of(u) is Some
    &&& member_of(m, "coordinates"@) matches Some(c) && corners_of(c) is Some
}

/// `s` is the video source that the members describe.
pub open spec fn video_source_is(m: Seq<(String, JsonValue)>, s: VideoSource) -> bool {
    &&& member_of(m, "urls"@) matches Some(u) && strings_of(u) == Some(s.urls@)
    &&& member_of(m, "coordinates"@) matches Some(c) && corners_of(c) matches Some(cs)
        && corners_are(s.coordinates, cs)
}

/// Whether the members of an image source are all well-formed.
pub open spec fn image_source_ok(m: Seq<(String, JsonValue)>) -> bool {
    &&& string_field(member_of(m, "url"@)) is Some
    &&& member_of(m, "coordinates"@) matches Some(c) && corners_of(c) is Some
}

/// `s` is the image source that the members describe.
pub open spec fn image_source_is(m: Seq<(String, JsonValue)>, s: ImageSource) -> bool {
    &&& string_field(member_of(m, "url"@)) == Some(s.url)
    &&& member_of(m, "coordinates"@) matches Some(c) && corners_of(c) matches Some(cs)
        && corners_are(s.coordinates, cs)
}

/// Whether `t` names a source type.
pub open spec fn known_source_type(t: Seq<char>) -> bool {
    ||| t == "vector"@
    ||| t == "raster"@
    ||| t == "raster-dem"@
    ||| t == "geojson"@
    ||| t == "video"@
    ||| t == "image"@
}

/// Whether the members of a source of type `t` are all well-formed.
pub open spec fn source_ok(t: Seq<char>, m: Seq<(String, JsonValue)>) -> bool {
    if t == "vector"@ {
        vector_source_ok(m)
    } else if t == "raster"@ {
        raster_source_ok(m)
    } else if t == "raster-dem"@ {
        raster_dem_source_ok(m)
    } else if t == "geojson"@ {
        geojson_source_ok(m)
    } else if t == "video"@ {
        video_source_ok(m)
    } else {
        image_source_ok(m)
    }
}

/// `s` is the source of type `t` that the members describe.
pub open spec fn source_is(t: Seq<char>, m: Seq<(String, JsonValue)>, s: Source) -> bool {
    if t == "vector"@ {
        s matches Source::Vector(x) && vector_source_is(m, x)
    } else if t == "raster"@ {
        s matches Source::Raster(x) && raster_source_is(m, x)
    } else if t == "raster-dem"@ {
        s matches Source::RasterDem(x) && raster_dem_source_is(m, x)
    } else if t == "geojson"@ {
        s matches Source::GeoJson(x) && geojson_source_is(m, x)
    } else if t == "video"@ {
        s matches Source::Video(x) && video_source_is(m, x)
    } else {
        s matches Source::Image(x) && image_source_is(m, x)
    }
}

/// The type name of a source, as written in a style.
pub open spec fn source_type_name(s: Source) -> Seq<char> {
    match s {
        Source::Vector(_) => "vector"@,
        Source::Raster(_) => "raster"@,
        Source::RasterDem(_) => "raster-dem"@,
        Source::GeoJson(_) => "geojson"@,
        Source::Video(_) => "video"@,
        Source::Image(_) => "image"@,
    }
}

/// A source read from a style is of the type that its `type` member names.
pub proof fn law_source_of_its_named_type(v: JsonValue, s: Source)
    requires
        source_read_as(v, Ok(s)),
    ensures
        v matches JsonValue::Object(m) && string_field(member_of(m@, "type"@)) matches Some(t) && t@
            == source_type_name(s),
{
}

/// What reading `v` as a source gives: `r` is the source that `v` describes, or the reason
/// that it describes none.
pub open spec fn source_read_as(v: JsonValue, r: Result<Source, SourceError>) -> bool {
    match v {
        JsonValue::Object(m) => match string_field(member_of(m@, "type"@)) {
            None => r == Err::<Source, SourceError>(SourceError::MissingType),
            Some(t) => if known_source_type(t@) {
                &&& (r is Ok <==> source_ok(t@, m@))
                &&& (r matches Ok(s) ==> source_is(t@, m@, s))
                &&& (r is Err ==> r == Err::<Source, SourceError>(SourceError::InvalidField))
            } else {
                r == Err::<Source, SourceError>(SourceError::UnknownType(t))
            },
        },
        _ => r == Err::<Source, SourceError>(SourceError::NotAnObject),
    }
}

impl VectorSource {
    /// Reads a vector source from the members of its object.
    pub fn from_members(members: &mut Vec<(String, JsonValue)>) -> (r: Option<VectorSource>)
        ensures
            match r {
                Some(s) => vector_source_ok(old(members)@) && vector_source_is(old(members)@, s),
                None => !vector_source_ok(old(members)@),
            },
    {
        let url = match read_opt_string(members, "url") { Some(x) => x, None => { return None; } };
        let tiles = match read_opt_strings(members, "tiles") { Some(x) => x, None => { return None; } };
        let bounds = match read_opt_bounds(members, "bounds") { Some(x) => x, None => { return None; } };
        let attribution = match read_opt_string(members, "attribution") { Some(x) => x, None => { return None; } };
        let volatile = match read_bool(members, "volatile") { Some(x) => x, None => { return None; } };
        let scheme = read_tile_scheme(members);
        let minzoom = match member(members, "minzoom") {
            Some(z) => minzoom_or_default(z),
            None => default_source_minzoom(),
        };
        let maxzoom = match member(members, "maxzoom") {
            Some(z) => maxzoom_or_default(z),
            None => default_source_maxzoom(),
        };
        let encoding = match member(members, "encoding") {
            Some(v) => vector_encoding_or_default(v),
            None => VectorEncoding::Mvt,
        };
        let promote_id = match take_member(members, "promoteId") {
            Some(JsonValue::Null) => None,
            other => other,
        };
        Some(VectorSource { url, tiles, bounds, scheme, minzoom, maxzoom, attribution, promote_id, volatile, encoding })
    }
}

impl RasterSource {
    /// Reads a raster source from the members of its object.
    pub fn from_members(members: &Vec<(String, JsonValue)>) -> (r: Option<RasterSource>)
        ensures
            match r {
                Some(s) => raster_source_ok(members@) && raster_source_is(members@, s),
                None => !raster_source_ok(members@),
            },
    {
        let url = match read_opt_string(members, "url") { Some(x) => x, None => { return None; } };
        let tiles = match read_opt_strings(members, "tiles") { Some(x) => x, None => { return None; } };
        let bounds = match read_opt_bounds(members, "bounds") { Some(x) => x, None => { return None; } };
        let attribution = match read_opt_string(members, "attribution") { Some(x) => x, None => { return None; } };
        let volatile = match read_bool(members, "volatile") { Some(x) => x, None => { return None; } };
        let minzoom = match member(members, "minzoom") {
            Some(z) => minzoom_or_default(z),
            None => default_source_minzoom(),
        };
        let maxzoom = match member(members, "maxzoom") {
            Some(z) => maxzoom_or_default(z),
            None => default_source_maxzoom(),
        };
        let tile_size = read_num_or(members, "tileSize", default_tile_size());
        let scheme = read_tile_scheme(members);
        Some(RasterSource { url, tiles, bounds, minzoom, maxzoom, tile_size, scheme, attribution, volatile })
    }
}

impl RasterDemSource {
    /// Reads a raster DEM source from the members of its object.
    pub fn from_members(members: &Vec<(String, JsonValue)>) -> (r: Option<RasterDemSource>)
        ensures
            match r {
                Some(s) => raster_dem_source_ok(members@) && raster_dem_source_is(members@, s),
                None => !raster_dem_source_ok(members@),
            },
    {
        let url = match read_opt_string(members, "url") { Some(x) => x, None => { return None; } };
        let tiles = match read_opt_strings(members, "tiles") { Some(x) => x, None => { return None; } };
        let bounds = match read_opt_bounds(members, "bounds") { Some(x) => x, None => { return None; } };
        let attribution = match read_opt_string(members, "attribution") { Some(x) => x, None => { return None; } };
        let base_shift = match read_num(members, "baseShift", Num { bits: 0 }) { Some(x) => x, None => { return None; } };
        let volatile = match read_bool(members, "volatile") { Some(x) => x, None => { return None; } };
        let minzoom = match member(members, "minzoom") {
            Some(z) => minzoom_or_default(z),
            None => default_source_minzoom(),
        };
        let maxzoom = match member(members, "maxzoom") {
            Some(z) => maxzoom_or_default(z),
            None => default_source_maxzoom(),
        };
        let tile_size = read_num_or(members, "tileSize", default_tile_size());
        let encoding = match member(members, "encoding") {
            Some(v) => dem_encoding_or_default(v),
            None => DemEncoding::Mapbox,
        };
        let red_factor = read_num_or(members, "redFactor", default_factor());
        let blue_factor = read_num_or(members, "blueFactor", default_factor());
        let green_factor = read_num_or(members, "greenFactor", default_factor());
        Some(RasterDemSource {
            url,
            tiles,
            bounds,
            minzoom,
            maxzoom,
            tile_size,
            attribution,
            encoding,
            red_factor,
            blue_factor,
            green_factor,
            base_shift,
            volatile,
        })
    }
}

impl GeoJsonSource {
    /// Reads a GeoJSON source from the members of its object.
    pub fn from_members(members: &mut Vec<(String, JsonValue)>) -> (r: Option<GeoJsonSource>)
        ensures
            match r {
                Some(s) => geojson_source_ok(old(members)@) && geojson_source_is(old(members)@, s),
                None => !geojson_source_ok(old(members)@),
            },
    {
        let ghost m = members@;
        if member(members, "data").is_none() {
            return None;
        }
        let attribution = match read_opt_string(members, "attribution") { Some(x) => x, None => { return None; } };
        let cluster = match read_bool(members, "cluster") { Some(x) => x, None => { return None; } };
        let cluster_max_zoom = match read_opt_num(members, "clusterMaxZoom") { Some(x) => x, None => { return None; } };
        let cluster_min_points = match read_opt_num(members, "clusterMinPoints") { Some(x) => x, None => { return None; } };
        let line_metrics = match read_bool(members, "lineMetrics") { Some(x) => x, None => { return None; } };
        let generate_id = match read_bool(members, "generateId") { Some(x) => x, None => { return None; } };
        let maxzoom = read_num_or(members, "maxzoom", default_geojson_maxzoom());
        let buffer = read_num_or(members, "buffer", default_buffer());
        let tolerance = read_num_or(members, "tolerance", default_tolerance());
        let cluster_radius = read_num_or(members, "clusterRadius", default_cluster_radius());
        proof {
            reveal_strlit("data");
            reveal_strlit("clusterProperties");
            reveal_strlit("promoteId");
        }
        assert("data"@.len() == 4);
        assert("data"@ != "clusterProperties"@);
        assert("data"@ != "promoteId"@);
        assert("promoteId"@.len() == 9);
        assert("clusterProperties"@ != "promoteId"@);
        let data = match take_member(members, "data") {
            Some(d) => d,
            None => { return None; },
        };
        let ghost m1 = members@;
        assert(member_of(m1, "clusterProperties"@) == member_of(m, "clusterProperties"@));
        assert(member_of(m1, "promoteId"@) == member_of(m, "promoteId"@));
        let cluster_properties = match take_member(members, "clusterProperties") {
            Some(JsonValue::Null) => None,
            other => other,
        };
        assert(member_of(members@, "promoteId"@) == member_of(m1, "promoteId"@));
        let promote_id = match take_member(members, "promoteId") {
            Some(JsonValue::Null) => None,
            other => other,
        };
        Some(GeoJsonSource {
            data,
            maxzoom,
            attribution,
            buffer,
            tolerance,
            cluster,
            cluster_radius,
            cluster_max_zoom,
            cluster_min_points,
            cluster_properties,
            line_metrics,
            generate_id,
            promote_id,
        })
    }
}

impl VideoSource {
    /// Reads a video source from the members of its object.
    pub fn from_members(members: &Vec<(String, JsonValue)>) -> (r: Option<VideoSource>)
        ensures
            match r {
                Some(s) => video_source_ok(members@) && video_source_is(members@, s),
                None => !video_source_ok(members@),
            },
    {
        let urls = match member(members, "urls") {
            Some(u) => match read_strings(u) { Some(x) => x, None => { return None; } },
            None => { return None; },
        };
        let coordinates = match read_corners(members, "coordinates") { Some(x) => x, None => { return None; } };
        Some(VideoSource { urls, coordinates })
    }
}

impl ImageSource {
    /// Reads an image source from the members of its object.
    pub fn from_members(members: &Vec<(String, JsonValue)>) -> (r: Option<ImageSource>)
        ensures
            match r {
                Some(s) => image_source_ok(members@) && image_source_is(members@, s),
                None => !image_source_ok(members@),
            },
    {
        let url = match read_string(members, "url") { Some(x) => x, None => { return None; } };
        let coordinates = match read_corners(members, "coordinates") { Some(x) => x, None => { return None; } };
        Some(ImageSource { url, coordinates })
    }
}

impl Source {
    /// Reads a source: an object whose `type` member names the kind of source and whose
    /// other members describe it. Members that no source type knows are ignored.
    pub fn from_json(v: JsonValue) -> (r: Result<Source, SourceError>)
        ensures
            source_read_as(v, r),
    {
        match v {
            JsonValue::Object(members) => {
                let ghost m = members@;
                let mut members = members;
                let t = match read_string(&members, "type") {
                    Some(t) => t,
                    None => { return Err(SourceError::MissingType); },
                };
                let r = if str_eq(t.as_str(), "vector") {
                    match VectorSource::from_members(&mut members) {
                        Some(s) => Ok(Source::Vector(s)),
                        None => Err(SourceError::InvalidField),
                    }
                } else if str_eq(t.as_str(), "raster") {
                    match RasterSource::from_members(&members) {
                        Some(s) => Ok(Source::Raster(s)),
                        None => Err(SourceError::InvalidField),
                    }
                } else if str_eq(t.as_str(), "raster-dem") {
                    match RasterDemSource::from_members(&members) {
                        Some(s) => Ok(Source::RasterDem(s)),
                        None => Err(SourceError::InvalidField),
                    }
                } else if str_eq(t.as_str(), "geojson") {
                    match GeoJsonSource::from_members(&mut members) {
                        Some(s) => Ok(Source::GeoJson(s)),
                        None => Err(SourceError::InvalidField),
                    }
                } else if str_eq(t.as_str(), "video") {
                    match VideoSource::from_members(&members) {
                        Some(s) => Ok(Source::Video(s)),
                        None => Err(SourceError::InvalidField),
                    }
                } else if str_eq(t.as_str(), "image") {
                    match ImageSource::from_members(&members) {
                        Some(s) => Ok(Source::Image(s)),
                        None => Err(SourceError::InvalidField),
                    }
                } else {
                    Err(SourceError::UnknownType(t))
                };
                r
            },
            _ => Err(SourceError::NotAnObject),
        }
    }
}

/// The names of the members that sources are read from.
pub open spec fn source_member_name(k: Seq<char>) -> bool {
    ||| k == "type"@
    ||| k == "url"@
    ||| k == "tiles"@
    ||| k == "bounds"@
    ||| k == "scheme"@
    ||| k == "minzoom"@
    ||| k == "maxzoom"@
    ||| k == "attribution"@
    ||| k == "promoteId"@
    ||| k == "volatile"@
    ||| k == "encoding"@
    ||| k == "tileSize"@
    ||| k == "redFactor"@
    ||| k == "blueFactor"@
    ||| k == "greenFactor"@
    ||| k == "baseShift"@
    ||| k == "data"@
    ||| k == "buffer"@
    ||| k == "tolerance"@
    ||| k == "cluster"@
    ||| k == "clusterRadius"@
    ||| k == "clusterMaxZoom"@
    ||| k == "clusterMinPoints"@
    ||| k == "clusterProperties"@
    ||| k == "lineMetrics"@
    ||| k == "generateId"@
    ||| k == "urls"@
    ||| k == "coordinates"@
}

/// A member whose name no source type knows is ignored: adding one to a source object changes
/// neither whether it can be read nor what it reads as.
pub proof fn law_unknown_source_member_ignored(
    t: Seq<char>,
    m: Seq<(String, JsonValue)>,
    k: String,
    x: JsonValue,
    s: Source,
)
    requires
        !source_member_name(k@),
    ensures
        source_ok(t, m.push((k, x))) == source_ok(t, m),
        source_is(t, m.push((k, x)), s) == source_is(t, m, s),
{
    let e = (k, x);
    crate::decode::lemma_member_of_push(m, e, "type"@);
    crate::decode::lemma_member_of_push(m, e, "url"@);
    crate::decode::lemma_member_of_push(m, e, "tiles"@);
    crate::decode::lemma_member_of_push(m, e, "bounds"@);
    crate::decode::lemma_member_of_push(m, e, "scheme"@);
    crate::decode::lemma_member_of_push(m, e, "minzoom"@);
    crate::decode::lemma_member_of_push(m, e, "maxzoom"@);
    crate::decode::lemma_member_of_push(m, e, "attribution"@);
    crate::decode::lemma_member_of_push(m, e, "promoteId"@);
    crate::decode::lemma_member_of_push(m, e, "volatile"@);
    crate::decode::lemma_member_of_push(m, e, "encoding"@);
    crate::decode::lemma_member_of_push(m, e, "tileSize"@);
    crate::decode::lemma_member_of_push(m, e, "redFactor"@);
    crate::decode::lemma_member_of_push(m, e, "blueFactor"@);
    crate::decode::lemma_member_of_push(m, e, "greenFactor"@);
    crate::decode::lemma_member_of_push(m, e, "baseShift"@);
    crate::decode::lemma_member_of_push(m, e, "data"@);
    crate::decode::lemma_member_of_push(m, e, "buffer"@);
    crate::decode::lemma_member_of_push(m, e, "tolerance"@);
    crate::decode::lemma_member_of_push(m, e, "cluster"@);
    crate::decode::lemma_member_of_push(m, e, "clusterRadius"@);
    crate::decode::lemma_member_of_push(m, e, "clusterMaxZoom"@);
    crate::decode::lemma_member_of_push(m, e, "clusterMinPoints"@);
    crate::decode::lemma_member_of_push(m, e, "clusterProperties"@);
    crate::decode::lemma_member_of_push(m, e, "lineMetrics"@);
    crate::decode::lemma_member_of_push(m, e, "generateId"@);
    crate::decode::lemma_member_of_push(m, e, "urls"@);
    crate::decode::lemma_member_of_push(m, e, "coordinates"@);
}

/// Whether sources are read from a member of this name; others are ignored.
pub fn is_source_member_name(k: &str) -> (r: bool)
    ensures
        r == source_member_name(k@),
{
    str_eq(k, "type") || str_eq(k, "url") || str_eq(k, "tiles") || str_eq(k, "bounds") || str_eq(k, "scheme") || str_eq(k, "minzoom") || str_eq(k, "maxzoom") || str_eq(k, "attribution") || str_eq(k, "promoteId") || str_eq(k, "volatile") || str_eq(k, "encoding") || str_eq(k, "tileSize") || str_eq(k, "redFactor") || str_eq(k, "blueFactor") || str_eq(k, "greenFactor") || str_eq(k, "baseShift") || str_eq(k, "data") || str_eq(k, "buffer") || str_eq(k, "tolerance") || str_eq(k, "cluster") || str_eq(k, "clusterRadius") || str_eq(k, "clusterMaxZoom") || str_eq(k, "clusterMinPoints") || str_eq(k, "clusterProperties") || str_eq(k, "lineMetrics") || str_eq(k, "generateId") || str_eq(k, "urls") || str_eq(k, "coordinates")
}

} // verus!
