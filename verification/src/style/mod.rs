//! The MapLibre style document: sprites, transitions, sources, layers and
//! property values.
//!
//! Unknown or malformed values of optional fields are replaced by their
//! defaults, so that a partially recognised style is still usable.

pub mod value;
pub mod source;
pub mod layer;

use vstd::prelude::*;
use crate::decode::{
    lenient_num, lenient_nums, member, member_of, nums_of, num_of, num_or, num_with_fallback,
    opt_nums, opt_string_field, present, present_value, read_lenient_num, read_num_or,
    read_opt_string, take_members, distinct_names, next_value, DocumentError,
};
use crate::json::{json_text_value, parse_json_text, JsonValue, Num};
use crate::text::str_eq;
use crate::style::layer::{layer_is, layer_ok, Layer};
use crate::style::source::{known_source_type, source_ok, source_read_as, Source};

verus! {

/// One sprite sheet of a style.
#[derive(Debug, PartialEq)]
pub struct SpriteEntry {
    /// The sprite's identifier; `"default"` needs no prefix when images are referenced.
    pub id: String,
    /// The URL of the sprite sheet, without the `.json`/`.png` extension.
    pub url: String,
}

/// The sprite of a style: a single URL, or an array of sprite sheets.
#[derive(Debug, PartialEq)]
pub enum Sprite {
    Url(String),
    Entries(Vec<SpriteEntry>),
}

/// Default timing of property transitions.
#[derive(Debug, Default, Clone, Copy, PartialEq, Eq)]
pub struct Transition {
    /// Duration in milliseconds.
    pub duration: Option<Num>,
    /// Delay in milliseconds.
    pub delay: Option<Num>,
}

/// A MapLibre style document (specification version 8).
#[derive(Debug, PartialEq)]
pub struct MaplibreStyle {
    pub version: u32,
    pub name: Option<String>,
    pub metadata: Option<JsonValue>,
    /// Default map center as `[longitude, latitude]`.
    pub center: Option<[Num; 2]>,
    pub center_altitude: Option<Num>,
    pub zoom: Option<Num>,
    pub bearing: Num,
    pub pitch: Num,
    pub roll: Num,
    /// Data sources by name, as given in the document.
    pub sources: Vec<(String, Source)>,
    pub sprite: Option<Sprite>,
    pub glyphs: Option<String>,
    pub transition: Transition,
    /// Layers in drawing order.
    pub layers: Vec<Layer>,
}

/// The number zero, the default of angles and offsets.
pub open spec fn zero_num() -> Num {
    Num { bits: 0 }
}

/// The sprite entry that a JSON value is: an object with string `id` and `url` members, or
/// the array `[id, url]`.
pub open spec fn sprite_entry_of(v: JsonValue) -> Option<SpriteEntry> {
    match v {
        JsonValue::Object(m) => match (member_of(m@, "id"@), member_of(m@, "url"@)) {
            (Some(JsonValue::String(id)), Some(JsonValue::String(url))) => Some(
                SpriteEntry { id, url },
            ),
            _ => None,
        },
        JsonValue::Array(a) => if a@.len() == 2 {
            match (a@[0], a@[1]) {
                (JsonValue::String(id), JsonValue::String(url)) => Some(SpriteEntry { id, url }),
                _ => None,
            }
        } else {
            None
        },
        _ => None,
    }
}

/// Whether a JSON value is a sprite: a string, or an array of sprite entries.
pub open spec fn sprite_ok(v: JsonValue) -> bool {
    match v {
        JsonValue::String(_) => true,
        JsonValue::Array(items) => forall|i: int|
            0 <= i < items@.len() ==> (#[trigger] sprite_entry_of(items@[i])) is Some,
        _ => false,
    }
}

/// `s` is the sprite that the JSON value `v` is.
pub open spec fn sprite_is(v: JsonValue, s: Sprite) -> bool {
    match v {
        JsonValue::String(url) => s == Sprite::Url(url),
        JsonValue::Array(items) => s matches Sprite::Entries(es) && es@.len() == items@.len()
            && forall|i: int|
            0 <= i < items@.len() ==> sprite_entry_of(#[trigger] items@[i]) == Some(es@[i]),
        _ => false,
    }
}

impl SpriteEntry {
    /// Reads a sprite entry.
    pub fn from_json(v: &JsonValue) -> (r: Option<SpriteEntry>)
        ensures
            r == sprite_entry_of(*v),
    {
        proof {
            reveal_strlit("id");
            reveal_strlit("url");
        }
        match v {
            JsonValue::Object(m) => match (member(m, "id"), member(m, "url")) {
                (Some(JsonValue::String(id)), Some(JsonValue::String(url))) => Some(
                    SpriteEntry { id: id.clone(), url: url.clone() },
                ),
                _ => None,
            },
            JsonValue::Array(a) => {
                if a.len() != 2 {
                    return None;
                }
                match (&a[0], &a[1]) {
                    (JsonValue::String(id), JsonValue::String(url)) => Some(
                        SpriteEntry { id: id.clone(), url: url.clone() },
                    ),
                    _ => None,
                }
            },
            _ => None,
        }
    }
}

impl Sprite {
    /// Reads a sprite: a string is a single URL, an array holds sprite entries.
    pub fn from_json(v: &JsonValue) -> (r: Option<Sprite>)
        ensures
            match r {
                Some(s) => sprite_ok(*v) && sprite_is(*v, s),
                None => !sprite_ok(*v),
            },
    {
        match v {
            JsonValue::String(s) => Some(Sprite::Url(s.clone())),
            JsonValue::Array(items) => {
                let mut out: Vec<SpriteEntry> = Vec::new();
                let mut i: usize = 0;
                while i < items.len()
                    invariant
                        *v == JsonValue::Array(*items),
                        i <= items@.len(),
                        out@.len() == i,
                        forall|k: int|
                            0 <= k < i ==> sprite_entry_of(#[trigger] items@[k]) == Some(out@[k]),
                    decreases items@.len() - i,
                {
                    match SpriteEntry::from_json(&items[i]) {
                        Some(e) => out.push(e),
                        None => {
                            assert(sprite_entry_of(items@[i as int]) is None);
                            return None;
                        },
                    }
                    i = i + 1;
                }
                Some(Sprite::Entries(out))
            },
            _ => None,
        }
    }
}

/// An optional number member of a transition: absent or `null` is `None`.
pub open spec fn opt_member_num(v: Option<JsonValue>) -> Option<Option<Num>> {
    match v {
        None => Some(None),
        Some(JsonValue::Null) => Some(None),
        Some(JsonValue::Number(n)) => Some(Some(n.value)),
        Some(_) => None,
    }
}

/// The transition that a JSON value is: an object with optional numeric `duration` and
/// `delay`, or the array `[duration, delay]`.
pub open spec fn transition_of(v: JsonValue) -> Option<Transition> {
    match v {
        JsonValue::Object(m) => match (
            opt_member_num(member_of(m@, "duration"@)),
            opt_member_num(member_of(m@, "delay"@)),
        ) {
            (Some(duration), Some(delay)) => Some(Transition { duration, delay }),
            _ => None,
        },
        JsonValue::Array(a) => if a@.len() == 2 {
            match (opt_member_num(Some(a@[0])), opt_member_num(Some(a@[1]))) {
                (Some(duration), Some(delay)) => Some(Transition { duration, delay }),
                _ => None,
            }
        } else {
            None
        },
        _ => None,
    }
}

/// Reads an optional number member.
fn read_opt_num(v: Option<&JsonValue>) -> (r: Option<Option<Num>>)
    ensures
        r == opt_member_num(
            match v {
                Some(x) => Some(*x),
                None => None::<JsonValue>,
            },
        ),
{
    match v {
        None => Some(None),
        Some(JsonValue::Null) => Some(None),
        Some(JsonValue::Number(n)) => Some(Some(n.value)),
        Some(_) => None,
    }
}

impl Transition {
    /// Reads a transition.
    pub fn from_json(v: &JsonValue) -> (r: Option<Transition>)
        ensures
            r == transition_of(*v),
    {
        proof {
            reveal_strlit("duration");
            reveal_strlit("delay");
        }
        match v {
            JsonValue::Object(m) => match (
                read_opt_num(member(m, "duration")),
                read_opt_num(member(m, "delay")),
            ) {
                (Some(duration), Some(delay)) => Some(Transition { duration, delay }),
                _ => None,
            },
            JsonValue::Array(a) => {
                if a.len() != 2 {
                    return None;
                }
                match (read_opt_num(Some(&a[0])), read_opt_num(Some(&a[1]))) {
                    (Some(duration), Some(delay)) => Some(Transition { duration, delay }),
                    _ => None,
                }
            },
            _ => None,
        }
    }

    /// The default transition: neither duration nor delay.
    pub fn new_default() -> (t: Transition)
        ensures
            t == (Transition { duration: None, delay: None }),
    {
        Transition { duration: None, delay: None }
    }
}

/// Reads a number that defaults to zero: `null` and values that are no number give `0.0`.
pub fn f64_or_default(v: &JsonValue) -> (r: Num)
    ensures
        r == (match num_of(*v) {
            Some(n) => n,
            None => zero_num(),
        }),
{
    num_with_fallback(v, Num { bits: 0 })
}

/// Reads an optional number: `null` and values that are no number give `None`.
pub fn opt_f64(v: &JsonValue) -> (r: Option<Num>)
    ensures
        r == num_of(*v),
{
    crate::decode::opt_num(v)
}

/// Reads an optional map center `[longitude, latitude]`; anything else gives `None`.
pub fn opt_center(v: &JsonValue) -> (r: Option<[Num; 2]>)
    ensures
        match r {
            Some(c) => nums_of(*v, 2) == Some(c@),
            None => nums_of(*v, 2) is None,
        },
{
    match opt_nums(v, 2) {
        Some(ns) => {
            let c = [ns[0], ns[1]];
            assert(c@ =~= ns@);
            Some(c)
        },
        None => None,
    }
}

/// Reads an optional sprite: `null` and values that are no sprite give `None`.
pub fn opt_sprite(v: &JsonValue) -> (r: Option<Sprite>)
    ensures
        match r {
            Some(s) => !(*v is Null) && sprite_ok(*v) && sprite_is(*v, s),
            None => *v is Null || !sprite_ok(*v),
        },
{
    match v {
        JsonValue::Null => None,
        _ => Sprite::from_json(v),
    }
}

/// Reads a transition; `null` and values that are no transition give the default.
pub fn transition_or_default(v: &JsonValue) -> (r: Transition)
    ensures
        r == (match transition_of(*v) {
            Some(t) => t,
            None => Transition { duration: None, delay: None },
        }),
{
    match Transition::from_json(v) {
        Some(t) => t,
        None => Transition::new_default(),
    }
}

/// The specification version that a member reads as: an integer from 0 to `u32::MAX`.
pub open spec fn version_field(m: Option<JsonValue>) -> Option<u32> {
    match m {
        Some(JsonValue::Number(n)) => match n.unsigned {
            Some(u) => if u <= 0xffff_ffff {
                Some(u as u32)
            } else {
                None
            },
            None => None,
        },
        _ => None,
    }
}

/// Whether a JSON value is a source that can be read.
pub open spec fn source_accepted(v: JsonValue) -> bool {
    match v {
        JsonValue::Object(m) => match crate::decode::string_field(member_of(m@, "type"@)) {
            Some(t) => known_source_type(t@) && source_ok(t@, m@),
            None => false,
        },
        _ => false,
    }
}

/// `out` holds the sources of `entries` that can be read, in their order, each under its
/// name. Where a name occurs more than once, its last entry is the one read; the earlier ones
/// are left out, as are the entries that cannot be read.
pub open spec fn sources_read(entries: Seq<(String, JsonValue)>, out: Seq<(String, Source)>) -> bool
    decreases entries.len(),
{
    if entries.len() == 0 {
        out.len() == 0
    } else if !named_later(entries, 0) && source_accepted(entries[0].1) {
        &&& out.len() > 0
        &&& out[0].0 == entries[0].0
        &&& source_read_as(entries[0].1, Ok(out[0].1))
        &&& sources_read(entries.drop_first(), out.drop_first())
    } else {
        sources_read(entries.drop_first(), out)
    }
}

/// `out` holds the layers of `items` that can be read, in their order; the ones that cannot
/// be read are left out.
pub open spec fn layers_read(items: Seq<JsonValue>, out: Seq<Layer>) -> bool
    decreases items.len(),
{
    if items.len() == 0 {
        out.len() == 0
    } else if layer_ok(items[0]) {
        &&& out.len() > 0
        &&& layer_is(items[0], out[0])
        &&& layers_read(items.drop_first(), out.drop_first())
    } else {
        layers_read(items.drop_first(), out)
    }
}

/// Whether the name of the entry at `i` occurs again later among `entries`.
pub open spec fn named_later(entries: Seq<(String, JsonValue)>, i: int) -> bool {
    exists|j: int| i < j < entries.len() && (#[trigger] entries[j]).0@ == entries[i].0@
}

/// No name occurs twice among the sources.
pub open spec fn source_names_distinct(out: Seq<(String, Source)>) -> bool {
    forall|a: int, b: int| 0 <= a < b < out.len() ==> out[a].0@ != out[b].0@
}

/// Whether one of `names` is `n`.
fn name_among(names: &Vec<String>, n: &String) -> (r: bool)
    ensures
        r == exists|j: int| 0 <= j < names@.len() && (#[trigger] names@[j])@ == n@,
{
    let mut i: usize = 0;
    while i < names.len()
        invariant
            i <= names@.len(),
            forall|j: int| 0 <= j < i ==> (#[trigger] names@[j])@ != n@,
        decreases names@.len() - i,
    {
        if crate::text::str_eq(names[i].as_str(), n.as_str()) {
            return true;
        }
        i = i + 1;
    }
    false
}

/// Whether `n` is the name of an entry of `entries` that no later entry shadows.
pub open spec fn last_named(entries: Seq<(String, JsonValue)>, n: Seq<char>) -> bool {
    exists|j: int| 0 <= j < entries.len() && !named_later(entries, j) && (#[trigger] entries[j]).0@ == n
}

/// Every source read is named as an entry that no later entry shadows.
proof fn lemma_sources_read_names(entries: Seq<(String, JsonValue)>, out: Seq<(String, Source)>)
    requires
        sources_read(entries, out),
    ensures
        forall|a: int| 0 <= a < out.len() ==> last_named(entries, (#[trigger] out[a]).0@),
    decreases entries.len(),
{
    if entries.len() > 0 {
        let t = entries.drop_first();
        let later = !named_later(entries, 0) && source_accepted(entries[0].1);
        let o = if later { out.drop_first() } else { out };
        lemma_sources_read_names(t, o);
        assert forall|a: int| 0 <= a < out.len() implies last_named(entries, (#[trigger] out[a]).0@) by {
            if later && a == 0 {
                assert(entries[0].0@ == out[0].0@);
            } else {
                let b = if later { a - 1 } else { a };
                assert(o[b] == out[a]);
                assert(last_named(t, o[b].0@));
                let j = choose|j: int| 0 <= j < t.len() && !named_later(t, j) && (#[trigger] t[j]).0@ == o[b].0@;
                assert(t[j] == entries[j + 1]);
                if named_later(entries, j + 1) {
                    let k = choose|k: int| j + 1 < k < entries.len() && (#[trigger] entries[k]).0@ == entries[j + 1].0@;
                    assert(t[k - 1] == entries[k]);
                }
            }
        }
    }
}

/// The sources of a style are named once each: where a name occurs more than once, only its
/// last entry is read.
pub proof fn law_source_names_distinct(entries: Seq<(String, JsonValue)>, out: Seq<(String, Source)>)
    requires
        sources_read(entries, out),
    ensures
        source_names_distinct(out),
    decreases entries.len(),
{
    if entries.len() > 0 {
        let t = entries.drop_first();
        if !named_later(entries, 0) && source_accepted(entries[0].1) {
            let o = out.drop_first();
            law_source_names_distinct(t, o);
            lemma_sources_read_names(t, o);
            assert forall|a: int, b: int| 0 <= a < b < out.len() implies out[a].0@ != out[b].0@ by {
                if a == 0 {
                    assert(o[b - 1] == out[b]);
                    assert(last_named(t, o[b - 1].0@));
                    let j = choose|j: int|
                        0 <= j < t.len() && !named_later(t, j) && (#[trigger] t[j]).0@ == o[b - 1].0@;
                    assert(t[j] == entries[j + 1]);
                    if out[0].0@ == out[b].0@ {
                        assert(entries[j + 1].0@ == entries[0].0@);
                    }
                } else {
                    assert(o[a - 1] == out[a] && o[b - 1] == out[b]);
                }
            }
        } else {
            law_source_names_distinct(t, out);
        }
    }
}

/// Reads the sources of a style, skipping the ones that cannot be read.
fn read_sources(entries: Vec<(String, JsonValue)>) -> (r: Vec<(String, Source)>)
    ensures
        sources_read(entries@, r@),
{
    let ghost orig = entries@;
    let mut entries = entries;
    let mut out: Vec<(String, Source)> = Vec::new();
    let mut seen: Vec<String> = Vec::new();
    while entries.len() > 0
        invariant
            entries@ == orig.subrange(0, entries@.len() as int),
            entries@.len() <= orig.len(),
            sources_read(orig.subrange(entries@.len() as int, orig.len() as int), out@),
            seen@.len() == orig.len() - entries@.len(),
            forall|j: int| 0 <= j < seen@.len() ==> (#[trigger] seen@[j])@ == orig[entries@.len() + j].0@,
        decreases entries@.len(),
    {
        let ghost n = entries@.len() as int;
        let ghost old_seen = seen@;
        let (name, value) = match entries.pop() {
            Some(e) => e,
            None => { return out; },
        };
        let ghost tail = orig.subrange(n - 1, orig.len() as int);
        assert(tail.drop_first() =~= orig.subrange(n, orig.len() as int));
        assert(tail[0] == (name, value));
        let shadowed = name_among(&seen, &name);
        assert(shadowed == named_later(tail, 0)) by {
            if shadowed {
                let j = choose|j: int| 0 <= j < old_seen.len() && (#[trigger] old_seen[j])@ == name@;
                assert(tail[j + 1] == orig[n + j]);
            }
            if named_later(tail, 0) {
                let k = choose|k: int| 0 < k < tail.len() && (#[trigger] tail[k]).0@ == tail[0].0@;
                assert(tail[k] == orig[n - 1 + k]);
                assert(old_seen[k - 1]@ == name@);
            }
        }
        let ghost v = value;
        seen.insert(0, name.clone());
        if !shadowed {
            match Source::from_json(value) {
                Ok(s) => {
                    let ghost old_out = out@;
                    out.insert(0, (name, s));
                    assert(out@.drop_first() =~= old_out);
                },
                Err(_) => {},
            }
        }
        assert forall|j: int| 0 <= j < seen@.len() implies (#[trigger] seen@[j])@ == orig[entries@.len() + j].0@ by {
            if j > 0 {
                assert(seen@[j] == old_seen[j - 1]);
            }
        }
        assert(entries@ =~= orig.subrange(0, entries@.len() as int));
    }
    assert(orig.subrange(0, orig.len() as int) =~= orig);
    out
}

/// Reads the layers of a style, skipping the ones that cannot be read.
fn read_layers(items: Vec<JsonValue>) -> (r: Vec<Layer>)
    ensures
        layers_read(items@, r@),
{
    let ghost orig = items@;
    let mut items = items;
    let mut out: Vec<Layer> = Vec::new();
    while items.len() > 0
        invariant
            items@ == orig.subrange(0, items@.len() as int),
            items@.len() <= orig.len(),
            layers_read(orig.subrange(items@.len() as int, orig.len() as int), out@),
        decreases items@.len(),
    {
        let ghost n = items@.len() as int;
        let value = match items.pop() {
            Some(e) => e,
            None => { return out; },
        };
        let ghost tail = orig.subrange(n - 1, orig.len() as int);
        assert(tail.drop_first() =~= orig.subrange(n, orig.len() as int));
        assert(tail[0] == value);
        match Layer::from_json(value) {
            Ok(l) => {
                let ghost old_out = out@;
                out.insert(0, l);
                assert(out@.drop_first() =~= old_out);
            },
            Err(_) => {},
        }
        assert(items@ =~= orig.subrange(0, items@.len() as int));
    }
    assert(orig.subrange(0, orig.len() as int) =~= orig);
    out
}

/// Whether the members of a style document are all well-formed: a version, a sources object
/// and a layers array are required; the name and glyphs must be strings where present.
pub open spec fn style_ok(m: Seq<(String, JsonValue)>) -> bool {
    &&& version_field(member_of(m, "version"@)) is Some
    &&& opt_string_field(member_of(m, "name"@)) is Some
    &&& opt_string_field(member_of(m, "glyphs"@)) is Some
    &&& member_of(m, "sources"@) matches Some(JsonValue::Object(_))
    &&& member_of(m, "layers"@) matches Some(JsonValue::Array(_))
}

/// `st` is the style document that the members describe.
pub open spec fn style_is(m: Seq<(String, JsonValue)>, st: MaplibreStyle) -> bool {
    &&& version_field(member_of(m, "version"@)) == Some(st.version)
    &&& opt_string_field(member_of(m, "name"@)) == Some(st.name)
    &&& st.metadata == present_value(member_of(m, "metadata"@))
    &&& (match lenient_nums(member_of(m, "center"@), 2) {
        Some(ns) => st.center matches Some(c) && c@ == ns,
        None => st.center is None,
    })
    &&& st.center_altitude == lenient_num(member_of(m, "centerAltitude"@))
    &&& st.zoom == lenient_num(member_of(m, "zoom"@))
    &&& st.bearing == num_or(member_of(m, "bearing"@), zero_num())
    &&& st.pitch == num_or(member_of(m, "pitch"@), zero_num())
    &&& st.roll == num_or(member_of(m, "roll"@), zero_num())
    &&& (member_of(m, "sources"@) matches Some(JsonValue::Object(sm)) && sources_read(sm@, st.sources@))
    &&& (match member_of(m, "sprite"@) {
        None => st.sprite is None,
        Some(v) => match st.sprite {
            Some(s) => !(v is Null) && sprite_ok(v) && sprite_is(v, s),
            None => v is Null || !sprite_ok(v),
        },
    })
    &&& opt_string_field(member_of(m, "glyphs"@)) == Some(st.glyphs)
    &&& st.transition == (match member_of(m, "transition"@) {
        Some(v) => match transition_of(v) {
            Some(t) => t,
            None => Transition { duration: None, delay: None },
        },
        None => Transition { duration: None, delay: None },
    })
    &&& (member_of(m, "layers"@) matches Some(JsonValue::Array(la)) && layers_read(la@, st.layers@))
}

impl MaplibreStyle {
    /// Reads a style document from JSON text, as `serde_json` reads it: a text that is not
    /// JSON is refused, and the value read is a style as `from_json` reads it.
    pub fn from_text(s: &str) -> (r: Result<MaplibreStyle, DocumentError>)
        ensures
            match json_text_value(s@) {
                None => r == Err::<MaplibreStyle, DocumentError>(DocumentError::NotJson),
                Some(JsonValue::Object(m)) => match r {
                    Ok(st) => style_ok(m@) && style_is(m@, st) && source_names_distinct(st.sources@),
                    Err(e) => !style_ok(m@) && e == DocumentError::InvalidField,
                },
                Some(_) => r == Err::<MaplibreStyle, DocumentError>(DocumentError::NotAnObject),
            },
    {
        match parse_json_text(s) {
            Some(v) => MaplibreStyle::from_json(v),
            None => Err(DocumentError::NotJson),
        }
    }

    /// Reads a style document. Members that the specification does not know are ignored,
    /// malformed optional values fall back to their defaults, and sources or layers that
    /// cannot be read are skipped, so that a partially recognised style is still usable.
    pub fn from_json(v: JsonValue) -> (r: Result<MaplibreStyle, DocumentError>)
        ensures
            match v {
                JsonValue::Object(m) => match r {
                    Ok(st) => style_ok(m@) && style_is(m@, st),
                    Err(e) => !style_ok(m@) && e == DocumentError::InvalidField,
                },
                _ => r == Err::<MaplibreStyle, DocumentError>(DocumentError::NotAnObject),
            },
            r matches Ok(st) ==> source_names_distinct(st.sources@),
    {
        let m = match v {
            JsonValue::Object(m) => m,
            _ => { return Err(DocumentError::NotAnObject); },
        };
        let version = match member(&m, "version") {
            Some(JsonValue::Number(n)) => match n.unsigned {
                Some(u) => if u <= 0xffff_ffff {
                    u as u32
                } else {
                    return Err(DocumentError::InvalidField);
                },
                None => { return Err(DocumentError::InvalidField); },
            },
            _ => { return Err(DocumentError::InvalidField); },
        };
        let name = match read_opt_string(&m, "name") { Some(x) => x, None => { return Err(DocumentError::InvalidField); } };
        let glyphs = match read_opt_string(&m, "glyphs") { Some(x) => x, None => { return Err(DocumentError::InvalidField); } };
        match member(&m, "sources") {
            Some(JsonValue::Object(_)) => {},
            _ => { return Err(DocumentError::InvalidField); },
        }
        match member(&m, "layers") {
            Some(JsonValue::Array(_)) => {},
            _ => { return Err(DocumentError::InvalidField); },
        }
        let center = match member(&m, "center") {
            Some(c) => opt_center(c),
            None => None,
        };
        let center_altitude = match member(&m, "centerAltitude") {
            Some(a) => opt_f64(a),
            None => None,
        };
        let zoom = match member(&m, "zoom") {
            Some(z) => opt_f64(z),
            None => None,
        };
        let bearing = match member(&m, "bearing") {
            Some(b) => f64_or_default(b),
            None => Num { bits: 0 },
        };
        let pitch = match member(&m, "pitch") {
            Some(p) => f64_or_default(p),
            None => Num { bits: 0 },
        };
        let roll = match member(&m, "roll") {
            Some(r) => f64_or_default(r),
            None => Num { bits: 0 },
        };
        let sprite = match member(&m, "sprite") {
            Some(s) => opt_sprite(s),
            None => None,
        };
        let transition = match member(&m, "transition") {
            Some(t) => transition_or_default(t),
            None => Transition::new_default(),
        };
        let ghost mv = m@;
        let keys: Vec<&str> = vec!["metadata", "sources", "layers"];
        proof {
            reveal_strlit("metadata");
            reveal_strlit("sources");
            reveal_strlit("layers");
            assert("metadata"@.len() == 8);
            assert("sources"@.len() == 7);
            assert("layers"@.len() == 6);
            assert(distinct_names(keys@));
        }
        let mut parts = take_members(m, &keys);
        assert(parts@[0] == member_of(mv, keys@[0]@));
        assert(parts@[1] == member_of(mv, keys@[1]@));
        assert(parts@[2] == member_of(mv, keys@[2]@));
        let metadata = present(next_value(&mut parts));
        let sources = match next_value(&mut parts) {
            Some(JsonValue::Object(sm)) => {
                let ghost entries = sm@;
                let r = read_sources(sm);
                proof {
                    law_source_names_distinct(entries, r@);
                }
                r
            },
            _ => { return Err(DocumentError::InvalidField); },
        };
        let layers = match next_value(&mut parts) {
            Some(JsonValue::Array(la)) => read_layers(la),
            _ => { return Err(DocumentError::InvalidField); },
        };
        Ok(MaplibreStyle {
            version,
            name,
            metadata,
            center,
            center_altitude,
            zoom,
            bearing,
            pitch,
            roll,
            sources,
            sprite,
            glyphs,
            transition,
            layers,
        })
    }

    /// The source named `name`, where the style has one.
    pub fn source(&self, name: &str) -> (r: Option<&Source>)
        ensures
            match r {
                Some(s) => exists|i: int| 0 <= i < self.sources@.len() && self.sources@[i].0@ == name@
                    && self.sources@[i].1 == *s && (forall|j: int| 0 <= j < i ==> self.sources@[j].0@ != name@),
                None => forall|i: int| 0 <= i < self.sources@.len() ==> self.sources@[i].0@ != name@,
            },
    {
        let mut i: usize = 0;
        while i < self.sources.len()
            invariant
                i <= self.sources@.len(),
                forall|j: int| 0 <= j < i ==> self.sources@[j].0@ != name@,
            decreases self.sources@.len() - i,
        {
            if str_eq(self.sources[i].0.as_str(), name) {
                return Some(&self.sources[i].1);
            }
            i = i + 1;
        }
        None
    }
}

/// The names of the members that a style document is read from.
pub open spec fn style_member_name(k: Seq<char>) -> bool {
    ||| k == "version"@
    ||| k == "name"@
    ||| k == "metadata"@
    ||| k == "center"@
    ||| k == "centerAltitude"@
    ||| k == "zoom"@
    ||| k == "bearing"@
    ||| k == "pitch"@
    ||| k == "roll"@
    ||| k == "sources"@
    ||| k == "sprite"@
    ||| k == "glyphs"@
    ||| k == "transition"@
    ||| k == "layers"@
}

/// A member whose name the style specification does not know is ignored: adding one to a
/// style document changes neither whether it can be read nor what it reads as.
pub proof fn law_unknown_style_member_ignored(
    m: Seq<(String, JsonValue)>,
    k: String,
    x: JsonValue,
    st: MaplibreStyle,
)
    requires
        !style_member_name(k@),
    ensures
        style_ok(m.push((k, x))) == style_ok(m),
        style_is(m.push((k, x)), st) == style_is(m, st),
{
    let e = (k, x);
    crate::decode::lemma_member_of_push(m, e, "version"@);
    crate::decode::lemma_member_of_push(m, e, "name"@);
    crate::decode::lemma_member_of_push(m, e, "metadata"@);
    crate::decode::lemma_member_of_push(m, e, "center"@);
    crate::decode::lemma_member_of_push(m, e, "centerAltitude"@);
    crate::decode::lemma_member_of_push(m, e, "zoom"@);
    crate::decode::lemma_member_of_push(m, e, "bearing"@);
    crate::decode::lemma_member_of_push(m, e, "pitch"@);
    crate::decode::lemma_member_of_push(m, e, "roll"@);
    crate::decode::lemma_member_of_push(m, e, "sources"@);
    crate::decode::lemma_member_of_push(m, e, "sprite"@);
    crate::decode::lemma_member_of_push(m, e, "glyphs"@);
    crate::decode::lemma_member_of_push(m, e, "transition"@);
    crate::decode::lemma_member_of_push(m, e, "layers"@);
}

/// A source that cannot be read does not keep the others from being read: adding one under a
/// new name to the sources of a style leaves the sources read unchanged.
pub proof fn law_unreadable_source_skipped(
    entries: Seq<(String, JsonValue)>,
    name: String,
    v: JsonValue,
    out: Seq<(String, Source)>,
)
    requires
        !source_accepted(v),
        forall|j: int| 0 <= j < entries.len() ==> (#[trigger] entries[j]).0@ != name@,
    ensures
        sources_read(entries.push((name, v)), out) == sources_read(entries, out),
    decreases entries.len(),
{
    let e = entries.push((name, v));
    assert(named_later(e, 0) == named_later(entries, 0)) by {
        if named_later(e, 0) {
            let k = choose|k: int| 0 < k < e.len() && (#[trigger] e[k]).0@ == e[0].0@;
            if k < entries.len() {
                assert(e[k] == entries[k]);
            } else {
                assert(e[k].0@ == name@);
                assert(e[0] == entries[0]);
                assert(entries[0].0@ != name@);
            }
        }
        if named_later(entries, 0) {
            let k = choose|k: int| 0 < k < entries.len() && (#[trigger] entries[k]).0@ == entries[0].0@;
            assert(e[k] == entries[k]);
        }
    }
    if entries.len() > 0 {
        assert forall|j: int| 0 <= j < entries.drop_first().len() implies (#[trigger] entries.drop_first()[j]).0@ != name@ by {
            assert(entries.drop_first()[j] == entries[j + 1]);
        }
    }
    if entries.len() == 0 {
        assert(e[0] == (name, v));
        assert(e.drop_first() =~= Seq::<(String, JsonValue)>::empty());
        assert(sources_read(e, out) == sources_read(e.drop_first(), out));
    } else {
        assert(e[0] == entries[0]);
        assert(e.drop_first() =~= entries.drop_first().push((name, v)));
        law_unreadable_source_skipped(entries.drop_first(), name, v, out);
        if out.len() > 0 {
            law_unreadable_source_skipped(entries.drop_first(), name, v, out.drop_first());
        }
    }
}

/// A layer that cannot be read does not keep the others from being read: adding one to the
/// layers of a style leaves the layers read unchanged.
pub proof fn law_unreadable_layer_skipped(items: Seq<JsonValue>, v: JsonValue, out: Seq<Layer>)
    requires
        !layer_ok(v),
    ensures
        layers_read(items.push(v), out) == layers_read(items, out),
    decreases items.len(),
{
    let e = items.push(v);
    if items.len() == 0 {
        assert(e[0] == v);
        assert(e.drop_first() =~= Seq::<JsonValue>::empty());
        assert(layers_read(e, out) == layers_read(e.drop_first(), out));
    } else {
        assert(e[0] == items[0]);
        assert(e.drop_first() =~= items.drop_first().push(v));
        law_unreadable_layer_skipped(items.drop_first(), v, out);
        if out.len() > 0 {
            law_unreadable_layer_skipped(items.drop_first(), v, out.drop_first());
        }
    }
}

/// Whether a style document is read from a member of this name; others are ignored.
pub fn is_style_member_name(k: &str) -> (r: bool)
    ensures
        r == style_member_name(k@),
{
    str_eq(k, "version") || str_eq(k, "name") || str_eq(k, "metadata") || str_eq(k, "center") || str_eq(k, "centerAltitude") || str_eq(k, "zoom") || str_eq(k, "bearing") || str_eq(k, "pitch") || str_eq(k, "roll") || str_eq(k, "sources") || str_eq(k, "sprite") || str_eq(k, "glyphs") || str_eq(k, "transition") || str_eq(k, "layers")
}

} // verus!
