//! TileJSON 3.0 manifests: metadata about a tile set, its tile endpoints,
//! zoom range, bounds and vector layers.

use vstd::prelude::*;
use crate::decode::{
    lenient_nums, member, member_of, nums_of, opt_nums, opt_string_field, opt_u8_field, read_opt_string,
    read_opt_u8, read_string, read_strings, read_strings_or_empty, read_u8_or, string_field,
    strings_field_or_empty, strings_of, u8_of, u8_or, u8_with_fallback, variant_name,
    variant_name_of, DocumentError,
};
use crate::json::{json_text_value, parse_json_text, JsonValue, Num};
use crate::text::str_eq;

verus! {

/// The tile coordinate scheme of a tile set.
#[derive(Debug, Default, Clone, Copy, PartialEq, Eq)]
pub enum Scheme {
    /// `y` grows downward (the default, used by most web maps).
    #[default]
    Xyz,
    /// `y` grows upward.
    Tms,
}

/// The lowest zoom level of a tile set or layer that names none.
pub open spec fn spec_default_minzoom() -> u8 {
    0
}

/// The highest zoom level of a tile set or layer that names none.
pub open spec fn spec_default_maxzoom() -> u8 {
    30
}

/// The lowest zoom level of a tile set or layer that names none: 0.
pub fn default_minzoom() -> (z: u8)
    ensures
        z == spec_default_minzoom(),
{
    0
}

/// The highest zoom level of a tile set or layer that names none: 30.
pub fn default_maxzoom() -> (z: u8)
    ensures
        z == spec_default_maxzoom(),
{
    30
}

/// Reads a minimum zoom level; `null` and values that are no integer from 0 to 255 give 0.
pub fn minzoom_or_default(v: &JsonValue) -> (z: u8)
    ensures
        z == (match u8_of(*v) {
            Some(n) => n,
            None => spec_default_minzoom(),
        }),
{
    u8_with_fallback(v, default_minzoom())
}

/// Reads a maximum zoom level; `null` and values that are no integer from 0 to 255 give 30.
pub fn maxzoom_or_default(v: &JsonValue) -> (z: u8)
    ensures
        z == (match u8_of(*v) {
            Some(n) => n,
            None => spec_default_maxzoom(),
        }),
{
    u8_with_fallback(v, default_maxzoom())
}

/// Reads optional bounds `[west, south, east, north]`; anything else gives `None`.
pub fn opt_bounds(v: &JsonValue) -> (r: Option<[Num; 4]>)
    ensures
        match r {
            Some(b) => nums_of(*v, 4) == Some(b@),
            None => nums_of(*v, 4) is None,
        },
{
    match opt_nums(v, 4) {
        Some(ns) => {
            let b = [ns[0], ns[1], ns[2], ns[3]];
            assert(b@ =~= ns@);
            Some(b)
        },
        None => None,
    }
}

/// Reads an optional default view `[longitude, latitude, zoom]`; anything else gives `None`.
pub fn opt_center(v: &JsonValue) -> (r: Option<[Num; 3]>)
    ensures
        match r {
            Some(c) => nums_of(*v, 3) == Some(c@),
            None => nums_of(*v, 3) is None,
        },
{
    match opt_nums(v, 3) {
        Some(ns) => {
            let c = [ns[0], ns[1], ns[2]];
            assert(c@ =~= ns@);
            Some(c)
        },
        None => None,
    }
}

/// A vector layer of a tile set.
#[derive(Debug, PartialEq)]
pub struct VectorLayer {
    /// The layer's name in the tiles.
    pub id: String,
    /// Field names and their descriptions, in the order of the manifest.
    pub fields: Vec<(String, String)>,
    pub description: Option<String>,
    pub minzoom: u8,
    pub maxzoom: u8,
}

/// The description of the first field named `name`.
pub open spec fn field_of(fields: Seq<(String, String)>, name: Seq<char>) -> Option<String>
    decreases fields.len(),
{
    if fields.len() == 0 {
        None
    } else if fields[0].0@ == name {
        Some(fields[0].1)
    } else {
        field_of(fields.drop_first(), name)
    }
}

impl VectorLayer {
    /// The description of the field `name`, where the layer has one.
    pub fn field(&self, name: &str) -> (r: Option<&String>)
        ensures
            match field_of(self.fields@, name@) {
                Some(d) => r == Some(&d),
                None => r is None,
            },
    {
        let mut i: usize = 0;
        assert(self.fields@.subrange(0, self.fields@.len() as int) =~= self.fields@);
        while i < self.fields.len()
            invariant
                i <= self.fields@.len(),
                field_of(self.fields@, name@) == field_of(
                    self.fields@.subrange(i as int, self.fields@.len() as int),
                    name@,
                ),
            decreases self.fields@.len() - i,
        {
            let ghost rest = self.fields@.subrange(i as int, self.fields@.len() as int);
            assert(rest.drop_first() =~= self.fields@.subrange(i + 1, self.fields@.len() as int));
            if str_eq(self.fields[i].0.as_str(), name) {
                return Some(&self.fields[i].1);
            }
            i = i + 1;
        }
        None
    }
}

/// A TileJSON 3.0 manifest.
#[derive(Debug, PartialEq)]
pub struct TileJson {
    /// The TileJSON version, such as `"3.0.0"`.
    pub tilejson: String,
    /// Tile URL templates with `{z}`, `{x}` and `{y}` placeholders.
    pub tiles: Vec<String>,
    pub vector_layers: Vec<VectorLayer>,
    pub name: Option<String>,
    pub description: Option<String>,
    pub attribution: Option<String>,
    pub version: Option<String>,
    pub minzoom: u8,
    pub maxzoom: u8,
    /// Bounds `[west, south, east, north]` in WGS 84.
    pub bounds: Option<[Num; 4]>,
    /// Default view `[longitude, latitude, zoom]`.
    pub center: Option<[Num; 3]>,
    pub scheme: Scheme,
    pub fillzoom: Option<u8>,
    pub legend: Option<String>,
    pub template: Option<String>,
    pub grids: Vec<String>,
    pub data: Vec<String>,
}

/// The field descriptions of a vector layer: an object whose members are all strings.
pub open spec fn fields_of(v: JsonValue) -> Option<Seq<(String, String)>> {
    match v {
        JsonValue::Object(m) => if forall|i: int|
            0 <= i < m@.len() ==> (#[trigger] m@[i]).1 is String {
            Some(Seq::new(m@.len(), |i: int| (m@[i].0, m@[i].1->String_0)))
        } else {
            None
        },
        _ => None,
    }
}

/// Reads the field descriptions of a vector layer.
fn read_fields(v: &JsonValue) -> (r: Option<Vec<(String, String)>>)
    ensures
        match r {
            Some(fs) => fields_of(*v) == Some(fs@),
            None => fields_of(*v) is None,
        },
{
    match v {
        JsonValue::Object(m) => {
            let mut out: Vec<(String, String)> = Vec::new();
            let mut i: usize = 0;
            while i < m.len()
                invariant
                    *v == JsonValue::Object(*m),
                    i <= m@.len(),
                    out@.len() == i,
                    forall|k: int| 0 <= k < i ==> (#[trigger] m@[k]).1 is String
                        && out@[k] == (m@[k].0, m@[k].1->String_0),
                decreases m@.len() - i,
            {
                match &m[i].1 {
                    JsonValue::String(d) => out.push((m[i].0.clone(), d.clone())),
                    _ => {
                        assert(!(m@[i as int].1 is String));
                        return None;
                    },
                }
                i = i + 1;
            }
            assert(out@ =~= Seq::new(m@.len(), |k: int| (m@[k].0, m@[k].1->String_0)));
            Some(out)
        },
        _ => None,
    }
}

/// Whether a JSON value is a vector layer description.
pub open spec fn vector_layer_ok(v: JsonValue) -> bool {
    match v {
        JsonValue::Object(m) => {
            &&& string_field(member_of(m@, "id"@)) is Some
            &&& member_of(m@, "fields"@) matches Some(f) && fields_of(f) is Some
            &&& opt_string_field(member_of(m@, "description"@)) is Some
        },
        _ => false,
    }
}

/// `l` is the vector layer that the JSON value describes.
pub open spec fn vector_layer_is(v: JsonValue, l: VectorLayer) -> bool {
    match v {
        JsonValue::Object(m) => {
            &&& string_field(member_of(m@, "id"@)) == Some(l.id)
            &&& member_of(m@, "fields"@) matches Some(f) && fields_of(f) == Some(l.fields@)
            &&& opt_string_field(member_of(m@, "description"@)) == Some(l.description)
            &&& l.minzoom == u8_or(member_of(m@, "minzoom"@), spec_default_minzoom())
            &&& l.maxzoom == u8_or(member_of(m@, "maxzoom"@), spec_default_maxzoom())
        },
        _ => false,
    }
}

impl VectorLayer {
    /// Reads a vector layer description.
    pub fn from_json(v: &JsonValue) -> (r: Option<VectorLayer>)
        ensures
            match r {
                Some(l) => vector_layer_ok(*v) && vector_layer_is(*v, l),
                None => !vector_layer_ok(*v),
            },
    {
        match v {
            JsonValue::Object(m) => {
                let id = match read_string(m, "id") { Some(x) => x, None => { return None; } };
                let fields = match member(m, "fields") {
                    Some(f) => match read_fields(f) { Some(x) => x, None => { return None; } },
                    None => { return None; },
                };
                let description = match read_opt_string(m, "description") { Some(x) => x, None => { return None; } };
                let minzoom = read_u8_or(m, "minzoom", default_minzoom());
                let maxzoom = read_u8_or(m, "maxzoom", default_maxzoom());
                Some(VectorLayer { id, fields, description, minzoom, maxzoom })
            },
            _ => None,
        }
    }
}

/// The tile scheme that a member reads as: absent is the default, and anything that names no
/// scheme is invalid.
pub open spec fn scheme_field(m: Option<JsonValue>) -> Option<Scheme> {
    match m {
        None => Some(Scheme::Xyz),
        Some(v) => match variant_name(v) {
            Some(n) => if n == "xyz"@ {
                Some(Scheme::Xyz)
            } else if n == "tms"@ {
                Some(Scheme::Tms)
            } else {
                None
            },
            None => None,
        },
    }
}

/// A scheme member names its scheme: `xyz` reads as `Xyz` and `tms` as `Tms`, an absent one is
/// `Xyz`, and every scheme read from a name was read from its own name.
pub proof fn law_scheme_read_by_its_name(v: JsonValue)
    ensures
        variant_name(v) == Some("xyz"@) ==> scheme_field(Some(v)) == Some(Scheme::Xyz),
        variant_name(v) == Some("tms"@) ==> scheme_field(Some(v)) == Some(Scheme::Tms),
        scheme_field(None) == Some(Scheme::Xyz),
        scheme_field(Some(v)) == Some(Scheme::Xyz) ==> variant_name(v) == Some("xyz"@),
        scheme_field(Some(v)) == Some(Scheme::Tms) ==> variant_name(v) == Some("tms"@),
{
    reveal_strlit("xyz");
    reveal_strlit("tms");
    assert("xyz"@[0] != "tms"@[0]);
}

/// The vector layer descriptions of a member: absent is none; anything but an array of
/// descriptions is invalid.
pub open spec fn vector_layers_ok(m: Option<JsonValue>) -> bool {
    match m {
        None => true,
        Some(JsonValue::Array(a)) => forall|i: int| 0 <= i < a@.len() ==> vector_layer_ok(#[trigger] a@[i]),
        _ => false,
    }
}

/// `ls` are the vector layers that a member describes.
pub open spec fn vector_layers_are(m: Option<JsonValue>, ls: Seq<VectorLayer>) -> bool {
    match m {
        None => ls.len() == 0,
        Some(JsonValue::Array(a)) => ls.len() == a@.len() && forall|i: int|
            0 <= i < a@.len() ==> vector_layer_is(#[trigger] a@[i], ls[i]),
        _ => false,
    }
}

/// Reads the vector layer descriptions of a manifest.
fn read_vector_layers(m: Option<&JsonValue>) -> (r: Option<Vec<VectorLayer>>)
    ensures
        match m {
            Some(v) => match r {
                Some(ls) => vector_layers_ok(Some(*v)) && vector_layers_are(Some(*v), ls@),
                None => !vector_layers_ok(Some(*v)),
            },
            None => r matches Some(ls) && ls@.len() == 0,
        },
{
    match m {
        None => Some(Vec::new()),
        Some(JsonValue::Array(a)) => {
            let mut out: Vec<VectorLayer> = Vec::new();
            let mut i: usize = 0;
            while i < a.len()
                invariant
                    m matches Some(v) && *v == JsonValue::Array(*a),
                    i <= a@.len(),
                    out@.len() == i,
                    forall|k: int| 0 <= k < i ==> vector_layer_ok(#[trigger] a@[k]) && vector_layer_is(a@[k], out@[k]),
                decreases a@.len() - i,
            {
                match VectorLayer::from_json(&a[i]) {
                    Some(l) => out.push(l),
                    None => {
                        assert(!vector_layer_ok(a@[i as int]));
                        assert(0 <= i < a@.len());
                        let ghost w = JsonValue::Array(*a);
                        assert(w matches JsonValue::Array(b) && b@ == a@);
                        assert(!vector_layers_ok(Some(w)));
                        return None;
                    },
                }
                i = i + 1;
            }
            Some(out)
        },
        Some(_) => None,
    }
}

/// Whether the members of a TileJSON manifest are all well-formed.
pub open spec fn tilejson_ok(m: Seq<(String, JsonValue)>) -> bool {
    &&& string_field(member_of(m, "tilejson"@)) is Some
    &&& member_of(m, "tiles"@) matches Some(t) && strings_of(t) is Some
    &&& vector_layers_ok(member_of(m, "vector_layers"@))
    &&& opt_string_field(member_of(m, "name"@)) is Some
    &&& opt_string_field(member_of(m, "description"@)) is Some
    &&& opt_string_field(member_of(m, "attribution"@)) is Some
    &&& opt_string_field(member_of(m, "version"@)) is Some
    &&& scheme_field(member_of(m, "scheme"@)) is Some
    &&& opt_u8_field(member_of(m, "fillzoom"@)) is Some
    &&& opt_string_field(member_of(m, "legend"@)) is Some
    &&& opt_string_field(member_of(m, "template"@)) is Some
    &&& strings_field_or_empty(member_of(m, "grids"@)) is Some
    &&& strings_field_or_empty(member_of(m, "data"@)) is Some
}

/// `t` is the manifest that the members describe.
pub open spec fn tilejson_is(m: Seq<(String, JsonValue)>, t: TileJson) -> bool {
    &&& string_field(member_of(m, "tilejson"@)) == Some(t.tilejson)
    &&& member_of(m, "tiles"@) matches Some(ts) && strings_of(ts) == Some(t.tiles@)
    &&& vector_layers_are(member_of(m, "vector_layers"@), t.vector_layers@)
    &&& opt_string_field(member_of(m, "name"@)) == Some(t.name)
    &&& opt_string_field(member_of(m, "description"@)) == Some(t.description)
    &&& opt_string_field(member_of(m, "attribution"@)) == Some(t.attribution)
    &&& opt_string_field(member_of(m, "version"@)) == Some(t.version)
    &&& t.minzoom == u8_or(member_of(m, "minzoom"@), spec_default_minzoom())
    &&& t.maxzoom == u8_or(member_of(m, "maxzoom"@), spec_default_maxzoom())
    &&& (match lenient_nums(member_of(m, "bounds"@), 4) {
        Some(ns) => t.bounds matches Some(b) && b@ == ns,
        None => t.bounds is None,
    })
    &&& (match lenient_nums(member_of(m, "center"@), 3) {
        Some(ns) => t.center matches Some(c) && c@ == ns,
        None => t.center is None,
    })
    &&& scheme_field(member_of(m, "scheme"@)) == Some(t.scheme)
    &&& opt_u8_field(member_of(m, "fillzoom"@)) == Some(t.fillzoom)
    &&& opt_string_field(member_of(m, "legend"@)) == Some(t.legend)
    &&& opt_string_field(member_of(m, "template"@)) == Some(t.template)
    &&& strings_field_or_empty(member_of(m, "grids"@)) == Some(t.grids@)
    &&& strings_field_or_empty(member_of(m, "data"@)) == Some(t.data@)
}

/// Reads the scheme member of a manifest.
fn read_scheme(members: &Vec<(String, JsonValue)>) -> (r: Option<Scheme>)
    ensures
        r == scheme_field(member_of(members@, "scheme"@)),
{
    match member(members, "scheme") {
        None => Some(Scheme::Xyz),
        Some(v) => match variant_name_of(v) {
            Some(n) => if str_eq(n, "xyz") {
                Some(Scheme::Xyz)
            } else if str_eq(n, "tms") {
                Some(Scheme::Tms)
            } else {
                None
            },
            None => None,
        },
    }
}

impl TileJson {
    /// Reads a TileJSON manifest from JSON text, as `serde_json` reads it: a text that is not
    /// JSON is refused, and the value read is a manifest as `from_json` reads it.
    pub fn from_text(s: &str) -> (r: Result<TileJson, DocumentError>)
        ensures
            match json_text_value(s@) {
                None => r == Err::<TileJson, DocumentError>(DocumentError::NotJson),
                Some(JsonValue::Object(m)) => match r {
                    Ok(t) => tilejson_ok(m@) && tilejson_is(m@, t),
                    Err(e) => !tilejson_ok(m@) && e == DocumentError::InvalidField,
                },
                Some(_) => r == Err::<TileJson, DocumentError>(DocumentError::NotAnObject),
            },
    {
        match parse_json_text(s) {
            Some(v) => TileJson::from_json(&v),
            None => Err(DocumentError::NotJson),
        }
    }

    /// Reads a TileJSON manifest. Members that the specification does not know are ignored;
    /// malformed zoom levels, bounds and centers fall back to their defaults.
    pub fn from_json(v: &JsonValue) -> (r: Result<TileJson, DocumentError>)
        ensures
            match *v {
                JsonValue::Object(m) => match r {
                    Ok(t) => tilejson_ok(m@) && tilejson_is(m@, t),
                    Err(e) => !tilejson_ok(m@) && e == DocumentError::InvalidField,
                },
                _ => r == Err::<TileJson, DocumentError>(DocumentError::NotAnObject),
            },
    {
        let m = match v {
            JsonValue::Object(m) => m,
            _ => { return Err(DocumentError::NotAnObject); },
        };
        let tilejson = match read_string(m, "tilejson") { Some(x) => x, None => { return Err(DocumentError::InvalidField); } };
        let tiles = match member(m, "tiles") {
            Some(t) => match read_strings(t) { Some(x) => x, None => { return Err(DocumentError::InvalidField); } },
            None => { return Err(DocumentError::InvalidField); },
        };
        let vector_layers = match read_vector_layers(member(m, "vector_layers")) {
            Some(x) => x,
            None => { return Err(DocumentError::InvalidField); },
        };
        let name = match read_opt_string(m, "name") { Some(x) => x, None => { return Err(DocumentError::InvalidField); } };
        let description = match read_opt_string(m, "description") { Some(x) => x, None => { return Err(DocumentError::InvalidField); } };
        let attribution = match read_opt_string(m, "attribution") { Some(x) => x, None => { return Err(DocumentError::InvalidField); } };
        let version = match read_opt_string(m, "version") { Some(x) => x, None => { return Err(DocumentError::InvalidField); } };
        let scheme = match read_scheme(m) { Some(x) => x, None => { return Err(DocumentError::InvalidField); } };
        let fillzoom = match read_opt_u8(m, "fillzoom") { Some(x) => x, None => { return Err(DocumentError::InvalidField); } };
        let legend = match read_opt_string(m, "legend") { Some(x) => x, None => { return Err(DocumentError::InvalidField); } };
        let template = match read_opt_string(m, "template") { Some(x) => x, None => { return Err(DocumentError::InvalidField); } };
        let grids = match read_strings_or_empty(m, "grids") { Some(x) => x, None => { return Err(DocumentError::InvalidField); } };
        let data = match read_strings_or_empty(m, "data") { Some(x) => x, None => { return Err(DocumentError::InvalidField); } };
        let minzoom = match member(m, "minzoom") {
            Some(z) => minzoom_or_default(z),
            None => default_minzoom(),
        };
        let maxzoom = match member(m, "maxzoom") {
            Some(z) => maxzoom_or_default(z),
            None => default_maxzoom(),
        };
        let bounds = match member(m, "bounds") {
            Some(b) => opt_bounds(b),
            None => None,
        };
        let center = match member(m, "center") {
            Some(c) => opt_center(c),
            None => None,
        };
        Ok(TileJson {
            tilejson,
            tiles,
            vector_layers,
            name,
            description,
            attribution,
            version,
            minzoom,
            maxzoom,
            bounds,
            center,
            scheme,
            fillzoom,
            legend,
            template,
            grids,
            data,
        })
    }
}

/// The names of the members that a TileJSON manifest is read from.
pub open spec fn tilejson_member_name(k: Seq<char>) -> bool {
    ||| k == "tilejson"@
    ||| k == "tiles"@
    ||| k == "vector_layers"@
    ||| k == "name"@
    ||| k == "description"@
    ||| k == "attribution"@
    ||| k == "version"@
    ||| k == "minzoom"@
    ||| k == "maxzoom"@
    ||| k == "bounds"@
    ||| k == "center"@
    ||| k == "scheme"@
    ||| k == "fillzoom"@
    ||| k == "legend"@
    ||| k == "template"@
    ||| k == "grids"@
    ||| k == "data"@
}

/// A member whose name the TileJSON specification does not know is ignored: adding one to a
/// manifest changes neither whether it can be read nor what it reads as.
pub proof fn law_unknown_tilejson_member_ignored(m: Seq<(String, JsonValue)>, k: String, x: JsonValue, t: TileJson)
    requires
        !tilejson_member_name(k@),
    ensures
        tilejson_ok(m.push((k, x))) == tilejson_ok(m),
        tilejson_is(m.push((k, x)), t) == tilejson_is(m, t),
{
    let e = (k, x);
    crate::decode::lemma_member_of_push(m, e, "tilejson"@);
    crate::decode::lemma_member_of_push(m, e, "tiles"@);
    crate::decode::lemma_member_of_push(m, e, "vector_layers"@);
    crate::decode::lemma_member_of_push(m, e, "name"@);
    crate::decode::lemma_member_of_push(m, e, "description"@);
    crate::decode::lemma_member_of_push(m, e, "attribution"@);
    crate::decode::lemma_member_of_push(m, e, "version"@);
    crate::decode::lemma_member_of_push(m, e, "minzoom"@);
    crate::decode::lemma_member_of_push(m, e, "maxzoom"@);
    crate::decode::lemma_member_of_push(m, e, "bounds"@);
    crate::decode::lemma_member_of_push(m, e, "center"@);
    crate::decode::lemma_member_of_push(m, e, "scheme"@);
    crate::decode::lemma_member_of_push(m, e, "fillzoom"@);
    crate::decode::lemma_member_of_push(m, e, "legend"@);
    crate::decode::lemma_member_of_push(m, e, "template"@);
    crate::decode::lemma_member_of_push(m, e, "grids"@);
    crate::decode::lemma_member_of_push(m, e, "data"@);
}

/// Whether a TileJSON manifest is read from a member of this name; others are ignored.
pub fn is_tilejson_member_name(k: &str) -> (r: bool)
    ensures
        r == tilejson_member_name(k@),
{
    str_eq(k, "tilejson") || str_eq(k, "tiles") || str_eq(k, "vector_layers") || str_eq(k, "name") || str_eq(k, "description") || str_eq(k, "attribution") || str_eq(k, "version") || str_eq(k, "minzoom") || str_eq(k, "maxzoom") || str_eq(k, "bounds") || str_eq(k, "center") || str_eq(k, "scheme") || str_eq(k, "fillzoom") || str_eq(k, "legend") || str_eq(k, "template") || str_eq(k, "grids") || str_eq(k, "data")
}

} // verus!
