//! Style layers.

use vstd::prelude::*;
use crate::color::{Color, MlColor};
use crate::decode::{
    distinct_names, lenient_num, member, member_of, next_value, opt_string_field, opt_strings_field,
    present, present_value, read_lenient_num, read_opt_string, read_opt_strings, read_string,
    string_field, strings_read_as, take_member, take_members, variant_name, variant_name_of,
    DocumentError,
};
use crate::json::{JsonValue, Num};
use crate::ml_expr::{spec_expr_array, tree_of, MlExpr};
use crate::style::value::{style_value_is, style_value_ok, MlStyleValue, StyleLiteral};
use crate::text::str_eq;

verus! {

/// Whether a layer is shown.
#[derive(Debug, Default, Clone, Copy, PartialEq, Eq)]
pub enum Visibility {
    /// Shown (the default).
    #[default]
    Visible,
    /// Hidden.
    Hidden,
}

/// The visibility that a name denotes: `visible` or `none`.
pub open spec fn visibility_named(n: Seq<char>) -> Option<Visibility> {
    if n == "visible"@ {
        Some(Visibility::Visible)
    } else if n == "none"@ {
        Some(Visibility::Hidden)
    } else {
        None
    }
}

/// The name of a visibility, as written in a layout.
pub open spec fn visibility_name(v: Visibility) -> Seq<char> {
    match v {
        Visibility::Visible => "visible"@,
        Visibility::Hidden => "none"@,
    }
}

/// Each visibility is read from its own name, and a name that is read at all is the name of
/// what it reads as.
pub proof fn law_visibility_read_by_its_name(v: Visibility, n: Seq<char>)
    ensures
        visibility_named(visibility_name(v)) == Some(v),
        visibility_named(n) matches Some(x) ==> n == visibility_name(x),
{
    reveal_strlit("visible");
    reveal_strlit("none");
    assert("none"@.len() != "visible"@.len());
}

/// Reads a visibility; `null` and values that name none give the default, visible.
pub fn visibility_or_default(v: &JsonValue) -> (r: Visibility)
    ensures
        r == (match variant_name(*v) {
            Some(n) => match visibility_named(n) {
                Some(x) => x,
                None => Visibility::Visible,
            },
            None => Visibility::Visible,
        }),
{
    match variant_name_of(v) {
        Some(n) => if str_eq(n, "visible") {
            Visibility::Visible
        } else if str_eq(n, "none") {
            Visibility::Hidden
        } else {
            Visibility::Visible
        },
        None => Visibility::Visible,
    }
}

/// Layout properties of the layer types that have only a visibility.
#[derive(Debug, Default, Clone, Copy, PartialEq, Eq)]
pub struct CommonLayout {
    pub visibility: Visibility,
}

/// The opacity that a layer has when it names none, `1.0`.
pub open spec fn one_num() -> Num {
    Num { bits: 0x3FF0_0000_0000_0000 }
}

/// Paint properties of a background layer.
#[derive(Debug, PartialEq)]
pub struct BackgroundPaint {
    pub background_color: MlStyleValue<MlColor>,
    pub background_opacity: MlStyleValue<Num>,
    pub background_pattern: Option<JsonValue>,
    pub background_emissive_strength: Option<JsonValue>,
}

impl BackgroundPaint {
    /// The paint of a background layer that names none: transparent, fully opaque.
    pub fn new_default() -> (p: BackgroundPaint)
        ensures
            p.background_color == MlStyleValue::<MlColor>::Literal(
                MlColor(Color { r: 0, g: 0, b: 0, a: 0 }),
            ),
            p.background_opacity == MlStyleValue::<Num>::Literal(one_num()),
            p.background_pattern is None,
            p.background_emissive_strength is None,
    {
        BackgroundPaint {
            background_color: MlStyleValue::Literal(MlColor(Color::transparent())),
            background_opacity: MlStyleValue::Literal(Num { bits: 0x3FF0_0000_0000_0000 }),
            background_pattern: None,
            background_emissive_strength: None,
        }
    }
}

/// A background layer fills the map with a color or pattern.
#[derive(Debug, PartialEq)]
pub struct BackgroundLayer {
    pub id: String,
    pub metadata: Option<JsonValue>,
    pub minzoom: Option<Num>,
    pub maxzoom: Option<Num>,
    pub layout: CommonLayout,
    pub paint: BackgroundPaint,
}

/// Paint properties of a fill layer.
#[derive(Debug, PartialEq)]
pub struct FillPaint {
    pub fill_antialias: Option<JsonValue>,
    pub fill_color: MlStyleValue<MlColor>,
    pub fill_outline_color: Option<JsonValue>,
    pub fill_opacity: MlStyleValue<Num>,
    pub fill_pattern: Option<JsonValue>,
    pub fill_translate: Option<JsonValue>,
    pub fill_translate_anchor: Option<JsonValue>,
    pub fill_emissive_strength: Option<JsonValue>,
}

/// A fill layer draws filled polygons.
#[derive(Debug, PartialEq)]
pub struct FillLayer {
    pub id: String,
    pub source: Option<String>,
    pub source_layer: Option<String>,
    pub metadata: Option<JsonValue>,
    pub minzoom: Option<Num>,
    pub maxzoom: Option<Num>,
    pub filter: Option<MlExpr>,
    pub layout: CommonLayout,
    pub paint: FillPaint,
}

/// Paint properties of a line layer.
#[derive(Debug, PartialEq)]
pub struct LinePaint {
    pub line_color: MlStyleValue<MlColor>,
    pub line_opacity: MlStyleValue<Num>,
    pub line_width: MlStyleValue<Num>,
    pub line_blur: Option<JsonValue>,
    pub line_dasharray: Option<JsonValue>,
    pub line_gap_width: Option<JsonValue>,
    pub line_gradient: Option<JsonValue>,
    pub line_pattern: Option<JsonValue>,
    pub line_translate: Option<JsonValue>,
    pub line_translate_anchor: Option<JsonValue>,
    pub line_emissive_strength: Option<JsonValue>,
    pub line_offset: Option<JsonValue>,
}

/// Layout properties of a line layer.
#[derive(Debug, PartialEq)]
pub struct LineLayout {
    pub visibility: Visibility,
    pub line_cap: Option<JsonValue>,
    pub line_join: Option<JsonValue>,
    pub line_miter_limit: Option<JsonValue>,
    pub line_round_limit: Option<JsonValue>,
    pub line_sort_key: Option<JsonValue>,
}

/// A line layer draws stroked lines.
#[derive(Debug, PartialEq)]
pub struct LineLayer {
    pub id: String,
    pub source: Option<String>,
    pub source_layer: Option<String>,
    pub metadata: Option<JsonValue>,
    pub minzoom: Option<Num>,
    pub maxzoom: Option<Num>,
    pub filter: Option<MlExpr>,
    pub layout: LineLayout,
    pub paint: LinePaint,
}

/// A layer of a style.
#[derive(Debug, PartialEq)]
pub enum Layer {
    Background(BackgroundLayer),
    Fill(FillLayer),
    Line(LineLayer),
    Circle(CircleLayer),
    Heatmap(HeatmapLayer),
    FillExtrusion(FillExtrusionLayer),
    Raster(RasterLayer),
    Hillshade(HillshadeLayer),
    Sky(SkyLayer),
    Slot(SlotLayer),
    Clip(ClipLayer),
    /// A layer of another type (symbol, color-relief), kept by its type, identifier and
    /// source.
    Other { layer_type: String, id: String, source: Option<String> },
}

/// The source that a layer draws from, where it has one.
pub open spec fn layer_source(l: Layer) -> Option<String> {
    match l {
        Layer::Background(_) => None,
        Layer::Fill(f) => f.source,
        Layer::Line(x) => x.source,
        Layer::Circle(x) => x.source,
        Layer::Heatmap(x) => x.source,
        Layer::FillExtrusion(x) => x.source,
        Layer::Raster(x) => x.source,
        Layer::Hillshade(x) => x.source,
        Layer::Sky(_) => None,
        Layer::Slot(_) => None,
        Layer::Clip(x) => x.source,
        Layer::Other { source, .. } => source,
    }
}

/// The identifier of a layer.
pub open spec fn layer_id(l: Layer) -> String {
    match l {
        Layer::Background(b) => b.id,
        Layer::Fill(f) => f.id,
        Layer::Line(x) => x.id,
        Layer::Circle(x) => x.id,
        Layer::Heatmap(x) => x.id,
        Layer::FillExtrusion(x) => x.id,
        Layer::Raster(x) => x.id,
        Layer::Hillshade(x) => x.id,
        Layer::Sky(x) => x.id,
        Layer::Slot(x) => x.id,
        Layer::Clip(x) => x.id,
        Layer::Other { id, .. } => id,
    }
}

/// The type name of a layer, as written in the style.
pub open spec fn layer_type_name(l: Layer) -> Seq<char> {
    match l {
        Layer::Background(_) => "background"@,
        Layer::Fill(_) => "fill"@,
        Layer::Line(_) => "line"@,
        Layer::Circle(_) => "circle"@,
        Layer::Heatmap(_) => "heatmap"@,
        Layer::FillExtrusion(_) => "fill-extrusion"@,
        Layer::Raster(_) => "raster"@,
        Layer::Hillshade(_) => "hillshade"@,
        Layer::Sky(_) => "sky"@,
        Layer::Slot(_) => "slot"@,
        Layer::Clip(_) => "clip"@,
        Layer::Other { layer_type, .. } => layer_type@,
    }
}

impl Layer {
    /// The source that the layer draws from; background, sky and slot layers have none.
    pub fn source(&self) -> (r: Option<&String>)
        ensures
            match layer_source(*self) {
                Some(s) => r == Some(&s),
                None => r is None,
            },
    {
        let s = match self {
            Layer::Background(_) => { return None; },
            Layer::Sky(_) => { return None; },
            Layer::Slot(_) => { return None; },
            Layer::Fill(f) => &f.source,
            Layer::Line(x) => &x.source,
            Layer::Circle(x) => &x.source,
            Layer::Heatmap(x) => &x.source,
            Layer::FillExtrusion(x) => &x.source,
            Layer::Raster(x) => &x.source,
            Layer::Hillshade(x) => &x.source,
            Layer::Clip(x) => &x.source,
            Layer::Other { source, .. } => source,
        };
        match s {
            Some(n) => Some(n),
            None => None,
        }
    }

    /// The layer's identifier.
    pub fn id(&self) -> (r: &String)
        ensures
            *r == layer_id(*self),
    {
        match self {
            Layer::Background(b) => &b.id,
            Layer::Fill(f) => &f.id,
            Layer::Line(x) => &x.id,
            Layer::Circle(x) => &x.id,
            Layer::Heatmap(x) => &x.id,
            Layer::FillExtrusion(x) => &x.id,
            Layer::Raster(x) => &x.id,
            Layer::Hillshade(x) => &x.id,
            Layer::Sky(x) => &x.id,
            Layer::Slot(x) => &x.id,
            Layer::Clip(x) => &x.id,
            Layer::Other { id, .. } => id,
        }
    }

    /// The layer's type name as written in the style.
    pub fn layer_type(&self) -> (r: &str)
        ensures
            r@ == layer_type_name(*self),
    {
        match self {
            Layer::Background(_) => "background",
            Layer::Fill(_) => "fill",
            Layer::Line(_) => "line",
            Layer::Circle(_) => "circle",
            Layer::Heatmap(_) => "heatmap",
            Layer::FillExtrusion(_) => "fill-extrusion",
            Layer::Raster(_) => "raster",
            Layer::Hillshade(_) => "hillshade",
            Layer::Sky(_) => "sky",
            Layer::Slot(_) => "slot",
            Layer::Clip(_) => "clip",
            Layer::Other { layer_type, .. } => layer_type.as_str(),
        }
    }
}

/// A paint property with a default: absent, `null` or malformed values give `default`.
pub open spec fn style_value_or<T: StyleLiteral>(
    m: Option<JsonValue>,
    default: MlStyleValue<T>,
    x: MlStyleValue<T>,
) -> bool {
    match m {
        Some(JsonValue::Null) => x == default,
        Some(v) => if style_value_ok::<T>(v) {
            style_value_is::<T>(v, x)
        } else {
            x == default
        },
        None => x == default,
    }
}

/// Reads a paint property, with `default` where it is absent, `null` or malformed.
fn read_style_value_or<T: StyleLiteral>(m: Option<JsonValue>, default: MlStyleValue<T>) -> (r: MlStyleValue<T>)
    ensures
        style_value_or(m, default, r),
{
    match m {
        Some(JsonValue::Null) => default,
        Some(v) => match MlStyleValue::<T>::from_json(v) {
            Some(x) => x,
            None => default,
        },
        None => default,
    }
}

/// The visibility that a layout member reads as: absent gives the default.
pub open spec fn visibility_field(m: Option<JsonValue>) -> Visibility {
    match m {
        Some(v) => match variant_name(v) {
            Some(n) => match visibility_named(n) {
                Some(x) => x,
                None => Visibility::Visible,
            },
            None => Visibility::Visible,
        },
        None => Visibility::Visible,
    }
}

/// The layout that only holds a visibility: absent gives the default, an object is read, and
/// anything else is invalid.
pub open spec fn common_layout_of(m: Option<JsonValue>) -> Option<CommonLayout> {
    match m {
        None => Some(CommonLayout { visibility: Visibility::Visible }),
        Some(JsonValue::Object(lm)) => Some(
            CommonLayout { visibility: visibility_field(member_of(lm@, "visibility"@)) },
        ),
        _ => None,
    }
}

/// Reads a layout that only holds a visibility.
fn read_common_layout(m: Option<&JsonValue>) -> (r: Option<CommonLayout>)
    ensures
        r == common_layout_of(match m {
            Some(v) => Some(*v),
            None => None,
        }),
{
    match m {
        None => Some(CommonLayout { visibility: Visibility::Visible }),
        Some(JsonValue::Object(lm)) => {
            let visibility = match member(lm, "visibility") {
                Some(v) => visibility_or_default(v),
                None => Visibility::Visible,
            };
            Some(CommonLayout { visibility })
        },
        Some(_) => None,
    }
}

/// Whether a paint or layout member can be read: absent, or an object.
pub open spec fn object_or_absent(m: Option<JsonValue>) -> bool {
    m is None || m matches Some(JsonValue::Object(_))
}

/// Whether a filter member can be read: absent, `null`, or an array that parses as an
/// expression.
pub open spec fn filter_ok(m: Option<JsonValue>) -> bool {
    match m {
        None => true,
        Some(JsonValue::Null) => true,
        Some(JsonValue::Array(arr)) => spec_expr_array(arr) is Ok,
        _ => false,
    }
}

/// `f` is the filter that a member reads as.
pub open spec fn filter_is(m: Option<JsonValue>, f: Option<MlExpr>) -> bool {
    match m {
        Some(JsonValue::Array(arr)) => f matches Some(e) && spec_expr_array(arr) == Ok::<_, crate::ml_expr::MlExprError>(tree_of(e)),
        _ => f is None,
    }
}

/// Reads the filter of a layer.
fn read_filter(m: Option<JsonValue>) -> (r: Option<Option<MlExpr>>)
    ensures
        match r {
            Some(f) => filter_ok(m) && filter_is(m, f),
            None => !filter_ok(m),
        },
{
    match m {
        None => Some(None),
        Some(JsonValue::Null) => Some(None),
        Some(JsonValue::Array(arr)) => match MlExpr::from_json(JsonValue::Array(arr)) {
            Ok(e) => Some(Some(e)),
            Err(_) => None,
        },
        Some(_) => None,
    }
}

/// The color of a layer that names none: opaque black.
pub open spec fn black() -> MlColor {
    MlColor(Color { r: 0, g: 0, b: 0, a: 255 })
}

/// The color of a background that names none: transparent.
pub open spec fn clear() -> MlColor {
    MlColor(Color { r: 0, g: 0, b: 0, a: 0 })
}

/// `p` is the background paint that a paint member describes.
pub open spec fn background_paint_is(m: Option<JsonValue>, p: BackgroundPaint) -> bool {
    match m {
        Some(JsonValue::Object(pm)) => {
            &&& style_value_or(member_of(pm@, "background-color"@), MlStyleValue::Literal(clear()), p.background_color)
            &&& style_value_or(member_of(pm@, "background-opacity"@), MlStyleValue::Literal(one_num()), p.background_opacity)
            &&& p.background_pattern == present_value(member_of(pm@, "background-pattern"@))
            &&& p.background_emissive_strength == present_value(member_of(pm@, "background-emissive-strength"@))
        },
        _ => {
            &&& p.background_color == MlStyleValue::<MlColor>::Literal(clear())
            &&& p.background_opacity == MlStyleValue::<Num>::Literal(one_num())
            &&& p.background_pattern is None
            &&& p.background_emissive_strength is None
        },
    }
}

impl BackgroundPaint {
    /// Reads the paint of a background layer: absent gives the default paint.
    pub fn from_member(m: Option<JsonValue>) -> (r: Option<BackgroundPaint>)
        ensures
            match r {
                Some(p) => object_or_absent(m) && background_paint_is(m, p),
                None => !object_or_absent(m),
            },
    {
        match m {
            None => Some(BackgroundPaint::new_default()),
            Some(JsonValue::Object(pm)) => {
                let keys: Vec<&str> = vec![
                    "background-color",
                    "background-opacity",
                    "background-pattern",
                    "background-emissive-strength",
                ];
                proof {
                    reveal_strlit("background-color");
                    reveal_strlit("background-opacity");
                    reveal_strlit("background-pattern");
                    reveal_strlit("background-emissive-strength");
                    assert("background-color"@.len() == 16);
                    assert("background-opacity"@.len() == 18);
                    assert("background-pattern"@.len() == 18);
                    assert("background-emissive-strength"@.len() == 28);
                    assert("background-opacity"@[11] != "background-pattern"@[11]);
                    assert(distinct_names(keys@));
                }
                let mut vals = take_members(pm, &keys);
                let color = next_value(&mut vals);
                let opacity = next_value(&mut vals);
                let pattern = next_value(&mut vals);
                let emissive = next_value(&mut vals);
                Some(BackgroundPaint {
                    background_color: read_style_value_or(color, MlStyleValue::Literal(MlColor(Color::transparent()))),
                    background_opacity: read_style_value_or(opacity, MlStyleValue::Literal(Num { bits: 0x3FF0_0000_0000_0000 })),
                    background_pattern: present(pattern),
                    background_emissive_strength: present(emissive),
                })
            },
            Some(_) => None,
        }
    }
}

/// `p` is the fill paint that a paint member describes.
pub open spec fn fill_paint_is(m: Option<JsonValue>, p: FillPaint) -> bool {
    match m {
        Some(JsonValue::Object(pm)) => {
            &&& p.fill_antialias == present_value(member_of(pm@, "fill-antialias"@))
            &&& style_value_or(member_of(pm@, "fill-color"@), MlStyleValue::Literal(black()), p.fill_color)
            &&& p.fill_outline_color == present_value(member_of(pm@, "fill-outline-color"@))
            &&& style_value_or(member_of(pm@, "fill-opacity"@), MlStyleValue::Literal(one_num()), p.fill_opacity)
            &&& p.fill_pattern == present_value(member_of(pm@, "fill-pattern"@))
            &&& p.fill_translate == present_value(member_of(pm@, "fill-translate"@))
            &&& p.fill_translate_anchor == present_value(member_of(pm@, "fill-translate-anchor"@))
            &&& p.fill_emissive_strength == present_value(member_of(pm@, "fill-emissive-strength"@))
        },
        _ => {
            &&& p.fill_antialias is None
            &&& p.fill_color == MlStyleValue::<MlColor>::Literal(black())
            &&& p.fill_outline_color is None
            &&& p.fill_opacity == MlStyleValue::<Num>::Literal(one_num())
            &&& p.fill_pattern is None
            &&& p.fill_translate is None
            &&& p.fill_translate_anchor is None
            &&& p.fill_emissive_strength is None
        },
    }
}

impl FillPaint {
    /// Reads the paint of a fill layer: absent gives the default paint.
    pub fn from_member(m: Option<JsonValue>) -> (r: Option<FillPaint>)
        ensures
            match r {
                Some(p) => object_or_absent(m) && fill_paint_is(m, p),
                None => !object_or_absent(m),
            },
    {
        match m {
            None => Some(FillPaint {
                fill_antialias: None,
                fill_color: MlStyleValue::Literal(MlColor(Color::rgba(0, 0, 0, 255))),
                fill_outline_color: None,
                fill_opacity: MlStyleValue::Literal(Num { bits: 0x3FF0_0000_0000_0000 }),
                fill_pattern: None,
                fill_translate: None,
                fill_translate_anchor: None,
                fill_emissive_strength: None,
            }),
            Some(JsonValue::Object(pm)) => {
                let keys: Vec<&str> = vec![
                    "fill-antialias",
                    "fill-color",
                    "fill-outline-color",
                    "fill-opacity",
                    "fill-pattern",
                    "fill-translate",
                    "fill-translate-anchor",
                    "fill-emissive-strength",
                ];
                proof {
                    reveal_strlit("fill-antialias");
                    reveal_strlit("fill-color");
                    reveal_strlit("fill-outline-color");
                    reveal_strlit("fill-opacity");
                    reveal_strlit("fill-pattern");
                    reveal_strlit("fill-translate");
                    reveal_strlit("fill-translate-anchor");
                    reveal_strlit("fill-emissive-strength");
                    assert("fill-antialias"@.len() == 14);
                    assert("fill-color"@.len() == 10);
                    assert("fill-outline-color"@.len() == 18);
                    assert("fill-opacity"@.len() == 12);
                    assert("fill-pattern"@.len() == 12);
                    assert("fill-translate"@.len() == 14);
                    assert("fill-translate-anchor"@.len() == 21);
                    assert("fill-emissive-strength"@.len() == 22);
                    assert("fill-opacity"@[5] != "fill-pattern"@[5]);
                    assert("fill-antialias"@[5] != "fill-translate"@[5]);
                    assert(distinct_names(keys@));
                }
                let mut vals = take_members(pm, &keys);
                let antialias = next_value(&mut vals);
                let color = next_value(&mut vals);
                let outline = next_value(&mut vals);
                let opacity = next_value(&mut vals);
                let pattern = next_value(&mut vals);
                let translate = next_value(&mut vals);
                let anchor = next_value(&mut vals);
                let emissive = next_value(&mut vals);
                Some(FillPaint {
                    fill_antialias: present(antialias),
                    fill_color: read_style_value_or(color, MlStyleValue::Literal(MlColor(Color::rgba(0, 0, 0, 255)))),
                    fill_outline_color: present(outline),
                    fill_opacity: read_style_value_or(opacity, MlStyleValue::Literal(Num { bits: 0x3FF0_0000_0000_0000 })),
                    fill_pattern: present(pattern),
                    fill_translate: present(translate),
                    fill_translate_anchor: present(anchor),
                    fill_emissive_strength: present(emissive),
                })
            },
            Some(_) => None,
        }
    }
}

/// `p` is the line paint that a paint member describes.
pub open spec fn line_paint_is(m: Option<JsonValue>, p: LinePaint) -> bool {
    match m {
        Some(JsonValue::Object(pm)) => {
            &&& style_value_or(member_of(pm@, "line-color"@), MlStyleValue::Literal(black()), p.line_color)
            &&& style_value_or(member_of(pm@, "line-opacity"@), MlStyleValue::Literal(one_num()), p.line_opacity)
            &&& style_value_or(member_of(pm@, "line-width"@), MlStyleValue::Literal(one_num()), p.line_width)
            &&& p.line_blur == present_value(member_of(pm@, "line-blur"@))
            &&& p.line_dasharray == present_value(member_of(pm@, "line-dasharray"@))
            &&& p.line_gap_width == present_value(member_of(pm@, "line-gap-width"@))
            &&& p.line_gradient == present_value(member_of(pm@, "line-gradient"@))
            &&& p.line_pattern == present_value(member_of(pm@, "line-pattern"@))
            &&& p.line_translate == present_value(member_of(pm@, "line-translate"@))
            &&& p.line_translate_anchor == present_value(member_of(pm@, "line-translate-anchor"@))
            &&& p.line_emissive_strength == present_value(member_of(pm@, "line-emissive-strength"@))
            &&& p.line_offset == present_value(member_of(pm@, "line-offset"@))
        },
        _ => {
            &&& p.line_color == MlStyleValue::<MlColor>::Literal(black())
            &&& p.line_opacity == MlStyleValue::<Num>::Literal(one_num())
            &&& p.line_width == MlStyleValue::<Num>::Literal(one_num())
            &&& p.line_blur is None
            &&& p.line_dasharray is None
            &&& p.line_gap_width is None
            &&& p.line_gradient is None
            &&& p.line_pattern is None
            &&& p.line_translate is None
            &&& p.line_translate_anchor is None
            &&& p.line_emissive_strength is None
            &&& p.line_offset is None
        },
    }
}

impl LinePaint {
    /// Reads the paint of a line layer: absent gives the default paint.
    pub fn from_member(m: Option<JsonValue>) -> (r: Option<LinePaint>)
        ensures
            match r {
                Some(p) => object_or_absent(m) && line_paint_is(m, p),
                None => !object_or_absent(m),
            },
    {
        match m {
            None => Some(LinePaint {
                line_color: MlStyleValue::Literal(MlColor(Color::rgba(0, 0, 0, 255))),
                line_opacity: MlStyleValue::Literal(Num { bits: 0x3FF0_0000_0000_0000 }),
                line_width: MlStyleValue::Literal(Num { bits: 0x3FF0_0000_0000_0000 }),
                line_blur: None,
                line_dasharray: None,
                line_gap_width: None,
                line_gradient: None,
                line_pattern: None,
                line_translate: None,
                line_translate_anchor: None,
                line_emissive_strength: None,
                line_offset: None,
            }),
            Some(JsonValue::Object(pm)) => {
                let keys: Vec<&str> = vec![
                    "line-color",
                    "line-opacity",
                    "line-width",
                    "line-blur",
                    "line-dasharray",
                    "line-gap-width",
                    "line-gradient",
                    "line-pattern",
                    "line-translate",
                    "line-translate-anchor",
                    "line-emissive-strength",
                    "line-offset",
                ];
                proof {
                    reveal_strlit("line-color");
                    reveal_strlit("line-opacity");
                    reveal_strlit("line-width");
                    reveal_strlit("line-blur");
                    reveal_strlit("line-dasharray");
                    reveal_strlit("line-gap-width");
                    reveal_strlit("line-gradient");
                    reveal_strlit("line-pattern");
                    reveal_strlit("line-translate");
                    reveal_strlit("line-translate-anchor");
                    reveal_strlit("line-emissive-strength");
                    reveal_strlit("line-offset");
                    assert("line-color"@.len() == 10);
                    assert("line-opacity"@.len() == 12);
                    assert("line-width"@.len() == 10);
                    assert("line-blur"@.len() == 9);
                    assert("line-dasharray"@.len() == 14);
                    assert("line-gap-width"@.len() == 14);
                    assert("line-gradient"@.len() == 13);
                    assert("line-pattern"@.len() == 12);
                    assert("line-translate"@.len() == 14);
                    assert("line-translate-anchor"@.len() == 21);
                    assert("line-emissive-strength"@.len() == 22);
                    assert("line-offset"@.len() == 11);
                    assert("line-color"@[5] != "line-width"@[5]);
                    assert("line-opacity"@[5] != "line-pattern"@[5]);
                    assert("line-dasharray"@[5] != "line-gap-width"@[5]);
                    assert("line-dasharray"@[5] != "line-translate"@[5]);
                    assert("line-gap-width"@[5] != "line-translate"@[5]);
                    assert(distinct_names(keys@));
                }
                let mut vals = take_members(pm, &keys);
                let color = next_value(&mut vals);
                let opacity = next_value(&mut vals);
                let width = next_value(&mut vals);
                let blur = next_value(&mut vals);
                let dasharray = next_value(&mut vals);
                let gap_width = next_value(&mut vals);
                let gradient = next_value(&mut vals);
                let pattern = next_value(&mut vals);
                let translate = next_value(&mut vals);
                let anchor = next_value(&mut vals);
                let emissive = next_value(&mut vals);
                let offset = next_value(&mut vals);
                Some(LinePaint {
                    line_color: read_style_value_or(color, MlStyleValue::Literal(MlColor(Color::rgba(0, 0, 0, 255)))),
                    line_opacity: read_style_value_or(opacity, MlStyleValue::Literal(Num { bits: 0x3FF0_0000_0000_0000 })),
                    line_width: read_style_value_or(width, MlStyleValue::Literal(Num { bits: 0x3FF0_0000_0000_0000 })),
                    line_blur: present(blur),
                    line_dasharray: present(dasharray),
                    line_gap_width: present(gap_width),
                    line_gradient: present(gradient),
                    line_pattern: present(pattern),
                    line_translate: present(translate),
                    line_translate_anchor: present(anchor),
                    line_emissive_strength: present(emissive),
                    line_offset: present(offset),
                })
            },
            Some(_) => None,
        }
    }
}

/// `l` is the line layout that a layout member describes.
pub open spec fn line_layout_is(m: Option<JsonValue>, l: LineLayout) -> bool {
    match m {
        Some(JsonValue::Object(lm)) => {
            &&& l.visibility == visibility_field(member_of(lm@, "visibility"@))
            &&& l.line_cap == present_value(member_of(lm@, "line-cap"@))
            &&& l.line_join == present_value(member_of(lm@, "line-join"@))
            &&& l.line_miter_limit == present_value(member_of(lm@, "line-miter-limit"@))
            &&& l.line_round_limit == present_value(member_of(lm@, "line-round-limit"@))
            &&& l.line_sort_key == present_value(member_of(lm@, "line-sort-key"@))
        },
        _ => {
            &&& l.visibility == Visibility::Visible
            &&& l.line_cap is None
            &&& l.line_join is None
            &&& l.line_miter_limit is None
            &&& l.line_round_limit is None
            &&& l.line_sort_key is None
        },
    }
}

impl LineLayout {
    /// Reads the layout of a line layer: absent gives the default layout.
    pub fn from_member(m: Option<JsonValue>) -> (r: Option<LineLayout>)
        ensures
            match r {
                Some(l) => object_or_absent(m) && line_layout_is(m, l),
                None => !object_or_absent(m),
            },
    {
        match m {
            None => Some(LineLayout {
                visibility: Visibility::Visible,
                line_cap: None,
                line_join: None,
                line_miter_limit: None,
                line_round_limit: None,
                line_sort_key: None,
            }),
            Some(JsonValue::Object(lm)) => {
                let visibility = match member(&lm, "visibility") {
                    Some(v) => visibility_or_default(v),
                    None => Visibility::Visible,
                };
                let keys: Vec<&str> = vec![
                    "line-cap",
                    "line-join",
                    "line-miter-limit",
                    "line-round-limit",
                    "line-sort-key",
                ];
                proof {
                    reveal_strlit("line-cap");
                    reveal_strlit("line-join");
                    reveal_strlit("line-miter-limit");
                    reveal_strlit("line-round-limit");
                    reveal_strlit("line-sort-key");
                    assert("line-cap"@.len() == 8);
                    assert("line-join"@.len() == 9);
                    assert("line-miter-limit"@.len() == 16);
                    assert("line-round-limit"@.len() == 16);
                    assert("line-sort-key"@.len() == 13);
                    assert("line-miter-limit"@[5] != "line-round-limit"@[5]);
                    assert(distinct_names(keys@));
                }
                let mut vals = take_members(lm, &keys);
                let cap = next_value(&mut vals);
                let join = next_value(&mut vals);
                let miter = next_value(&mut vals);
                let round = next_value(&mut vals);
                let sort_key = next_value(&mut vals);
                Some(LineLayout {
                    visibility,
                    line_cap: present(cap),
                    line_join: present(join),
                    line_miter_limit: present(miter),
                    line_round_limit: present(round),
                    line_sort_key: present(sort_key),
                })
            },
            Some(_) => None,
        }
    }
}

/// Paint that names no property draws as MapLibre's defaults: fills and lines in opaque
/// black at full opacity, lines one pixel wide, and backgrounds transparent at full opacity.
pub proof fn law_paint_defaults(f: FillPaint, l: LinePaint, b: BackgroundPaint)
    ensures
        fill_paint_is(None, f) ==> f.fill_color == MlStyleValue::<MlColor>::Literal(
            MlColor(Color { r: 0, g: 0, b: 0, a: 255 }),
        ) && f.fill_opacity == MlStyleValue::<Num>::Literal(Num { bits: 0x3FF0_0000_0000_0000 }),
        line_paint_is(None, l) ==> l.line_color == MlStyleValue::<MlColor>::Literal(
            MlColor(Color { r: 0, g: 0, b: 0, a: 255 }),
        ) && l.line_opacity == MlStyleValue::<Num>::Literal(Num { bits: 0x3FF0_0000_0000_0000 })
            && l.line_width == MlStyleValue::<Num>::Literal(Num { bits: 0x3FF0_0000_0000_0000 }),
        background_paint_is(None, b) ==> b.background_color == MlStyleValue::<MlColor>::Literal(
            MlColor(Color { r: 0, g: 0, b: 0, a: 0 }),
        ) && b.background_opacity == MlStyleValue::<Num>::Literal(Num { bits: 0x3FF0_0000_0000_0000 }),
{
}

/// Whether `t` names a layer type that is kept by its type, identifier and source only.
pub open spec fn other_layer_type(t: Seq<char>) -> bool {
    t == "symbol"@ || t == "color-relief"@
}

/// Whether `t` names a layer type that is kept by its type, identifier and source only.
fn is_other_layer_type(t: &str) -> (r: bool)
    ensures
        r == other_layer_type(t@),
{
    str_eq(t, "symbol") || str_eq(t, "color-relief")
}

/// Whether the members of a background layer are all well-formed.
pub open spec fn background_layer_ok(m: Seq<(String, JsonValue)>) -> bool {
    &&& common_layout_of(member_of(m, "layout"@)) is Some
    &&& object_or_absent(member_of(m, "paint"@))
}

/// `b` is the background layer that the members describe.
pub open spec fn background_layer_is(m: Seq<(String, JsonValue)>, b: BackgroundLayer) -> bool {
    &&& string_field(member_of(m, "id"@)) == Some(b.id)
    &&& b.metadata == present_value(member_of(m, "metadata"@))
    &&& b.minzoom == lenient_num(member_of(m, "minzoom"@))
    &&& b.maxzoom == lenient_num(member_of(m, "maxzoom"@))
    &&& common_layout_of(member_of(m, "layout"@)) == Some(b.layout)
    &&& background_paint_is(member_of(m, "paint"@), b.paint)
}

/// Whether the members of a fill layer are all well-formed.
pub open spec fn fill_layer_ok(m: Seq<(String, JsonValue)>) -> bool {
    &&& opt_string_field(member_of(m, "source"@)) is Some
    &&& opt_string_field(member_of(m, "source-layer"@)) is Some
    &&& filter_ok(member_of(m, "filter"@))
    &&& common_layout_of(member_of(m, "layout"@)) is Some
    &&& object_or_absent(member_of(m, "paint"@))
}

/// `f` is the fill layer that the members describe.
pub open spec fn fill_layer_is(m: Seq<(String, JsonValue)>, f: FillLayer) -> bool {
    &&& string_field(member_of(m, "id"@)) == Some(f.id)
    &&& opt_string_field(member_of(m, "source"@)) == Some(f.source)
    &&& opt_string_field(member_of(m, "source-layer"@)) == Some(f.source_layer)
    &&& f.metadata == present_value(member_of(m, "metadata"@))
    &&& f.minzoom == lenient_num(member_of(m, "minzoom"@))
    &&& f.maxzoom == lenient_num(member_of(m, "maxzoom"@))
    &&& filter_is(member_of(m, "filter"@), f.filter)
    &&& common_layout_of(member_of(m, "layout"@)) == Some(f.layout)
    &&& fill_paint_is(member_of(m, "paint"@), f.paint)
}

/// Whether the members of a line layer are all well-formed.
pub open spec fn line_layer_ok(m: Seq<(String, JsonValue)>) -> bool {
    &&& opt_string_field(member_of(m, "source"@)) is Some
    &&& opt_string_field(member_of(m, "source-layer"@)) is Some
    &&& filter_ok(member_of(m, "filter"@))
    &&& object_or_absent(member_of(m, "layout"@))
    &&& object_or_absent(member_of(m, "paint"@))
}

/// `l` is the line layer that the members describe.
pub open spec fn line_layer_is(m: Seq<(String, JsonValue)>, l: LineLayer) -> bool {
    &&& string_field(member_of(m, "id"@)) == Some(l.id)
    &&& opt_string_field(member_of(m, "source"@)) == Some(l.source)
    &&& opt_string_field(member_of(m, "source-layer"@)) == Some(l.source_layer)
    &&& l.metadata == present_value(member_of(m, "metadata"@))
    &&& l.minzoom == lenient_num(member_of(m, "minzoom"@))
    &&& l.maxzoom == lenient_num(member_of(m, "maxzoom"@))
    &&& filter_is(member_of(m, "filter"@), l.filter)
    &&& line_layout_is(member_of(m, "layout"@), l.layout)
    &&& line_paint_is(member_of(m, "paint"@), l.paint)
}

/// Whether a JSON value is a layer: an object with a string `type` naming a layer type, a
/// string `id`, and well-formed members for that type.
pub open spec fn layer_ok(v: JsonValue) -> bool {
    match v {
        JsonValue::Object(m) => match string_field(member_of(m@, "type"@)) {
            Some(t) => {
                &&& string_field(member_of(m@, "id"@)) is Some
                &&& if t@ == "background"@ {
                    background_layer_ok(m@)
                } else if t@ == "fill"@ {
                    fill_layer_ok(m@)
                } else if t@ == "line"@ {
                    line_layer_ok(m@)
                } else if t@ == "circle"@ {
                    circle_layer_ok(m@)
                } else if t@ == "heatmap"@ {
                    heatmap_layer_ok(m@)
                } else if t@ == "fill-extrusion"@ {
                    fill_extrusion_layer_ok(m@)
                } else if t@ == "raster"@ {
                    raster_layer_ok(m@)
                } else if t@ == "hillshade"@ {
                    hillshade_layer_ok(m@)
                } else if t@ == "sky"@ {
                    sky_layer_ok(m@)
                } else if t@ == "slot"@ {
                    true
                } else if t@ == "clip"@ {
                    clip_layer_ok(m@)
                } else {
                    other_layer_type(t@) && opt_string_field(member_of(m@, "source"@)) is Some
                }
            },
            None => false,
        },
        _ => false,
    }
}

/// `l` is the layer that the JSON value describes.
pub open spec fn layer_is(v: JsonValue, l: Layer) -> bool {
    match v {
        JsonValue::Object(m) => match string_field(member_of(m@, "type"@)) {
            Some(t) => if t@ == "background"@ {
                l matches Layer::Background(b) && background_layer_is(m@, b)
            } else if t@ == "fill"@ {
                l matches Layer::Fill(f) && fill_layer_is(m@, f)
            } else if t@ == "line"@ {
                l matches Layer::Line(x) && line_layer_is(m@, x)
            } else if t@ == "circle"@ {
                l matches Layer::Circle(x) && circle_layer_is(m@, x)
            } else if t@ == "heatmap"@ {
                l matches Layer::Heatmap(x) && heatmap_layer_is(m@, x)
            } else if t@ == "fill-extrusion"@ {
                l matches Layer::FillExtrusion(x) && fill_extrusion_layer_is(m@, x)
            } else if t@ == "raster"@ {
                l matches Layer::Raster(x) && raster_layer_is(m@, x)
            } else if t@ == "hillshade"@ {
                l matches Layer::Hillshade(x) && hillshade_layer_is(m@, x)
            } else if t@ == "sky"@ {
                l matches Layer::Sky(x) && sky_layer_is(m@, x)
            } else if t@ == "slot"@ {
                l matches Layer::Slot(x) && slot_layer_is(m@, x)
            } else if t@ == "clip"@ {
                l matches Layer::Clip(x) && clip_layer_is(m@, x)
            } else {
                l matches Layer::Other { layer_type, id, source } && layer_type == t
                    && string_field(member_of(m@, "id"@)) == Some(id)
                    && opt_string_field(member_of(m@, "source"@)) == Some(source)
            },
            None => false,
        },
        _ => false,
    }
}

/// Takes the members of a layer that hold nested values out of its object.
fn take_layer_parts(m: Vec<(String, JsonValue)>) -> (r: Vec<Option<JsonValue>>)
    ensures
        r@.len() == 4,
        r@[0] == member_of(m@, "metadata"@),
        r@[1] == member_of(m@, "layout"@),
        r@[2] == member_of(m@, "paint"@),
        r@[3] == member_of(m@, "filter"@),
{
    let keys: Vec<&str> = vec!["metadata", "layout", "paint", "filter"];
    proof {
        reveal_strlit("metadata");
        reveal_strlit("layout");
        reveal_strlit("paint");
        reveal_strlit("filter");
        assert("metadata"@.len() == 8);
        assert("layout"@.len() == 6);
        assert("paint"@.len() == 5);
        assert("filter"@.len() == 6);
        assert("layout"@[0] != "filter"@[0]);
        assert(distinct_names(keys@));
    }
    let r = take_members(m, &keys);
    assert(r@[0] == member_of(m@, keys@[0]@));
    assert(r@[1] == member_of(m@, keys@[1]@));
    assert(r@[2] == member_of(m@, keys@[2]@));
    assert(r@[3] == member_of(m@, keys@[3]@));
    r
}

impl BackgroundLayer {
    /// Reads a background layer from the members of its object.
    pub fn from_members(m: Vec<(String, JsonValue)>, id: String) -> (r: Option<BackgroundLayer>)
        requires
            string_field(member_of(m@, "id"@)) == Some(id),
        ensures
            match r {
                Some(b) => background_layer_ok(m@) && background_layer_is(m@, b),
                None => !background_layer_ok(m@),
            },
    {
        let minzoom = read_lenient_num(&m, "minzoom");
        let maxzoom = read_lenient_num(&m, "maxzoom");
        let layout = match read_common_layout(member(&m, "layout")) {
            Some(l) => l,
            None => { return None; },
        };
        let mut parts = take_layer_parts(m);
        let metadata = next_value(&mut parts);
        let _layout = next_value(&mut parts);
        let paint = match BackgroundPaint::from_member(next_value(&mut parts)) {
            Some(p) => p,
            None => { return None; },
        };
        Some(BackgroundLayer { id, metadata: present(metadata), minzoom, maxzoom, layout, paint })
    }
}

impl FillLayer {
    /// Reads a fill layer from the members of its object.
    pub fn from_members(m: Vec<(String, JsonValue)>, id: String) -> (r: Option<FillLayer>)
        requires
            string_field(member_of(m@, "id"@)) == Some(id),
        ensures
            match r {
                Some(f) => fill_layer_ok(m@) && fill_layer_is(m@, f),
                None => !fill_layer_ok(m@),
            },
    {
        let source = match read_opt_string(&m, "source") { Some(x) => x, None => { return None; } };
        let source_layer = match read_opt_string(&m, "source-layer") { Some(x) => x, None => { return None; } };
        let minzoom = read_lenient_num(&m, "minzoom");
        let maxzoom = read_lenient_num(&m, "maxzoom");
        let layout = match read_common_layout(member(&m, "layout")) {
            Some(l) => l,
            None => { return None; },
        };
        let mut parts = take_layer_parts(m);
        let metadata = next_value(&mut parts);
        let _layout = next_value(&mut parts);
        let paint_member = next_value(&mut parts);
        let filter = match read_filter(next_value(&mut parts)) {
            Some(f) => f,
            None => { return None; },
        };
        let paint = match FillPaint::from_member(paint_member) {
            Some(p) => p,
            None => { return None; },
        };
        Some(FillLayer {
            id,
            source,
            source_layer,
            metadata: present(metadata),
            minzoom,
            maxzoom,
            filter,
            layout,
            paint,
        })
    }
}

impl LineLayer {
    /// Reads a line layer from the members of its object.
    pub fn from_members(m: Vec<(String, JsonValue)>, id: String) -> (r: Option<LineLayer>)
        requires
            string_field(member_of(m@, "id"@)) == Some(id),
        ensures
            match r {
                Some(l) => line_layer_ok(m@) && line_layer_is(m@, l),
                None => !line_layer_ok(m@),
            },
    {
        let source = match read_opt_string(&m, "source") { Some(x) => x, None => { return None; } };
        let source_layer = match read_opt_string(&m, "source-layer") { Some(x) => x, None => { return None; } };
        let minzoom = read_lenient_num(&m, "minzoom");
        let maxzoom = read_lenient_num(&m, "maxzoom");
        let mut parts = take_layer_parts(m);
        let metadata = next_value(&mut parts);
        let layout_member = next_value(&mut parts);
        let paint_member = next_value(&mut parts);
        let filter = match read_filter(next_value(&mut parts)) {
            Some(f) => f,
            None => { return None; },
        };
        let layout = match LineLayout::from_member(layout_member) {
            Some(l) => l,
            None => { return None; },
        };
        let paint = match LinePaint::from_member(paint_member) {
            Some(p) => p,
            None => { return None; },
        };
        Some(LineLayer {
            id,
            source,
            source_layer,
            metadata: present(metadata),
            minzoom,
            maxzoom,
            filter,
            layout,
            paint,
        })
    }
}

/// Paint properties of a circle layer, each kept as written.
#[derive(Debug, PartialEq)]
pub struct CirclePaint {
    pub circle_color: Option<JsonValue>,
    pub circle_radius: Option<JsonValue>,
    pub circle_opacity: Option<JsonValue>,
    pub circle_stroke_width: Option<JsonValue>,
    pub circle_stroke_color: Option<JsonValue>,
    pub circle_stroke_opacity: Option<JsonValue>,
    pub circle_blur: Option<JsonValue>,
    pub circle_translate: Option<JsonValue>,
    pub circle_translate_anchor: Option<JsonValue>,
    pub circle_pitch_scale: Option<JsonValue>,
    pub circle_pitch_alignment: Option<JsonValue>,
    pub circle_emissive_strength: Option<JsonValue>,
}

/// `p` is the paint of a circle layer that a paint member describes: each property present
/// and not `null` is kept, and an absent paint has none.
pub open spec fn circle_paint_is(m: Option<JsonValue>, p: CirclePaint) -> bool {
    match m {
        Some(JsonValue::Object(pm)) => {
            &&& p.circle_color == present_value(member_of(pm@, "circle-color"@))
            &&& p.circle_radius == present_value(member_of(pm@, "circle-radius"@))
            &&& p.circle_opacity == present_value(member_of(pm@, "circle-opacity"@))
            &&& p.circle_stroke_width == present_value(member_of(pm@, "circle-stroke-width"@))
            &&& p.circle_stroke_color == present_value(member_of(pm@, "circle-stroke-color"@))
            &&& p.circle_stroke_opacity == present_value(member_of(pm@, "circle-stroke-opacity"@))
            &&& p.circle_blur == present_value(member_of(pm@, "circle-blur"@))
            &&& p.circle_translate == present_value(member_of(pm@, "circle-translate"@))
            &&& p.circle_translate_anchor == present_value(member_of(pm@, "circle-translate-anchor"@))
            &&& p.circle_pitch_scale == present_value(member_of(pm@, "circle-pitch-scale"@))
            &&& p.circle_pitch_alignment == present_value(member_of(pm@, "circle-pitch-alignment"@))
            &&& p.circle_emissive_strength == present_value(member_of(pm@, "circle-emissive-strength"@))
        },
        _ => {
            &&& p.circle_color is None
            &&& p.circle_radius is None
            &&& p.circle_opacity is None
            &&& p.circle_stroke_width is None
            &&& p.circle_stroke_color is None
            &&& p.circle_stroke_opacity is None
            &&& p.circle_blur is None
            &&& p.circle_translate is None
            &&& p.circle_translate_anchor is None
            &&& p.circle_pitch_scale is None
            &&& p.circle_pitch_alignment is None
            &&& p.circle_emissive_strength is None
        },
    }
}

impl CirclePaint {
    /// Reads the paint of a circle layer: absent gives no property.
    pub fn from_member(m: Option<JsonValue>) -> (r: Option<CirclePaint>)
        ensures
            match r {
                Some(p) => object_or_absent(m) && circle_paint_is(m, p),
                None => !object_or_absent(m),
            },
    {
        match m {
            None => Some(CirclePaint {
                circle_color: None,
                circle_radius: None,
                circle_opacity: None,
                circle_stroke_width: None,
                circle_stroke_color: None,
                circle_stroke_opacity: None,
                circle_blur: None,
                circle_translate: None,
                circle_translate_anchor: None,
                circle_pitch_scale: None,
                circle_pitch_alignment: None,
                circle_emissive_strength: None,
            }),
            Some(JsonValue::Object(pm)) => {
                let keys: Vec<&str> = vec![
                    "circle-color",
                    "circle-radius",
                    "circle-opacity",
                    "circle-stroke-width",
                    "circle-stroke-color",
                    "circle-stroke-opacity",
                    "circle-blur",
                    "circle-translate",
                    "circle-translate-anchor",
                    "circle-pitch-scale",
                    "circle-pitch-alignment",
                    "circle-emissive-strength",
                ];
                proof {
                    reveal_strlit("circle-color");
                    reveal_strlit("circle-radius");
                    reveal_strlit("circle-opacity");
                    reveal_strlit("circle-stroke-width");
                    reveal_strlit("circle-stroke-color");
                    reveal_strlit("circle-stroke-opacity");
                    reveal_strlit("circle-blur");
                    reveal_strlit("circle-translate");
                    reveal_strlit("circle-translate-anchor");
                    reveal_strlit("circle-pitch-scale");
                    reveal_strlit("circle-pitch-alignment");
                    reveal_strlit("circle-emissive-strength");
                    assert("circle-color"@.len() == 12);
                    assert("circle-radius"@.len() == 13);
                    assert("circle-opacity"@.len() == 14);
                    assert("circle-stroke-width"@.len() == 19);
                    assert("circle-stroke-color"@.len() == 19);
                    assert("circle-stroke-opacity"@.len() == 21);
                    assert("circle-blur"@.len() == 11);
                    assert("circle-translate"@.len() == 16);
                    assert("circle-translate-anchor"@.len() == 23);
                    assert("circle-pitch-scale"@.len() == 18);
                    assert("circle-pitch-alignment"@.len() == 22);
                    assert("circle-emissive-strength"@.len() == 24);
                    assert("circle-stroke-width"@[14] != "circle-stroke-color"@[14]);
                    assert(distinct_names(keys@));
                }
                let ghost pv = pm@;
                let mut vals = take_members(pm, &keys);
                assert(vals@[0] == member_of(pv, keys@[0]@));
                assert(vals@[1] == member_of(pv, keys@[1]@));
                assert(vals@[2] == member_of(pv, keys@[2]@));
                assert(vals@[3] == member_of(pv, keys@[3]@));
                assert(vals@[4] == member_of(pv, keys@[4]@));
                assert(vals@[5] == member_of(pv, keys@[5]@));
                assert(vals@[6] == member_of(pv, keys@[6]@));
                assert(vals@[7] == member_of(pv, keys@[7]@));
                assert(vals@[8] == member_of(pv, keys@[8]@));
                assert(vals@[9] == member_of(pv, keys@[9]@));
                assert(vals@[10] == member_of(pv, keys@[10]@));
                assert(vals@[11] == member_of(pv, keys@[11]@));
                let v0 = next_value(&mut vals);
                let v1 = next_value(&mut vals);
                let v2 = next_value(&mut vals);
                let v3 = next_value(&mut vals);
                let v4 = next_value(&mut vals);
                let v5 = next_value(&mut vals);
                let v6 = next_value(&mut vals);
                let v7 = next_value(&mut vals);
                let v8 = next_value(&mut vals);
                let v9 = next_value(&mut vals);
                let v10 = next_value(&mut vals);
                let v11 = next_value(&mut vals);
                Some(CirclePaint {
                    circle_color: present(v0),
                    circle_radius: present(v1),
                    circle_opacity: present(v2),
                    circle_stroke_width: present(v3),
                    circle_stroke_color: present(v4),
                    circle_stroke_opacity: present(v5),
                    circle_blur: present(v6),
                    circle_translate: present(v7),
                    circle_translate_anchor: present(v8),
                    circle_pitch_scale: present(v9),
                    circle_pitch_alignment: present(v10),
                    circle_emissive_strength: present(v11),
                })
            },
            Some(_) => None,
        }
    }
}

/// Paint properties of a heatmap layer, each kept as written.
#[derive(Debug, PartialEq)]
pub struct HeatmapPaint {
    pub heatmap_radius: Option<JsonValue>,
    pub heatmap_weight: Option<JsonValue>,
    pub heatmap_intensity: Option<JsonValue>,
    pub heatmap_color: Option<JsonValue>,
    pub heatmap_opacity: Option<JsonValue>,
    pub heatmap_emissive_strength: Option<JsonValue>,
}

/// `p` is the paint of a heatmap layer that a paint member describes: each property present
/// and not `null` is kept, and an absent paint has none.
pub open spec fn heatmap_paint_is(m: Option<JsonValue>, p: HeatmapPaint) -> bool {
    match m {
        Some(JsonValue::Object(pm)) => {
            &&& p.heatmap_radius == present_value(member_of(pm@, "heatmap-radius"@))
            &&& p.heatmap_weight == present_value(member_of(pm@, "heatmap-weight"@))
            &&& p.heatmap_intensity == present_value(member_of(pm@, "heatmap-intensity"@))
            &&& p.heatmap_color == present_value(member_of(pm@, "heatmap-color"@))
            &&& p.heatmap_opacity == present_value(member_of(pm@, "heatmap-opacity"@))
            &&& p.heatmap_emissive_strength == present_value(member_of(pm@, "heatmap-emissive-strength"@))
        },
        _ => {
            &&& p.heatmap_radius is None
            &&& p.heatmap_weight is None
            &&& p.heatmap_intensity is None
            &&& p.heatmap_color is None
            &&& p.heatmap_opacity is None
            &&& p.heatmap_emissive_strength is None
        },
    }
}

impl HeatmapPaint {
    /// Reads the paint of a heatmap layer: absent gives no property.
    pub fn from_member(m: Option<JsonValue>) -> (r: Option<HeatmapPaint>)
        ensures
            match r {
                Some(p) => object_or_absent(m) && heatmap_paint_is(m, p),
                None => !object_or_absent(m),
            },
    {
        match m {
            None => Some(HeatmapPaint {
                heatmap_radius: None,
                heatmap_weight: None,
                heatmap_intensity: None,
                heatmap_color: None,
                heatmap_opacity: None,
                heatmap_emissive_strength: None,
            }),
            Some(JsonValue::Object(pm)) => {
                let keys: Vec<&str> = vec![
                    "heatmap-radius",
                    "heatmap-weight",
                    "heatmap-intensity",
                    "heatmap-color",
                    "heatmap-opacity",
                    "heatmap-emissive-strength",
                ];
                proof {
                    reveal_strlit("heatmap-radius");
                    reveal_strlit("heatmap-weight");
                    reveal_strlit("heatmap-intensity");
                    reveal_strlit("heatmap-color");
                    reveal_strlit("heatmap-opacity");
                    reveal_strlit("heatmap-emissive-strength");
                    assert("heatmap-radius"@.len() == 14);
                    assert("heatmap-weight"@.len() == 14);
                    assert("heatmap-intensity"@.len() == 17);
                    assert("heatmap-color"@.len() == 13);
                    assert("heatmap-opacity"@.len() == 15);
                    assert("heatmap-emissive-strength"@.len() == 25);
                    assert("heatmap-radius"@[8] != "heatmap-weight"@[8]);
                    assert(distinct_names(keys@));
                }
                let ghost pv = pm@;
                let mut vals = take_members(pm, &keys);
                assert(vals@[0] == member_of(pv, keys@[0]@));
                assert(vals@[1] == member_of(pv, keys@[1]@));
                assert(vals@[2] == member_of(pv, keys@[2]@));
                assert(vals@[3] == member_of(pv, keys@[3]@));
                assert(vals@[4] == member_of(pv, keys@[4]@));
                assert(vals@[5] == member_of(pv, keys@[5]@));
                let v0 = next_value(&mut vals);
                let v1 = next_value(&mut vals);
                let v2 = next_value(&mut vals);
                let v3 = next_value(&mut vals);
                let v4 = next_value(&mut vals);
                let v5 = next_value(&mut vals);
                Some(HeatmapPaint {
                    heatmap_radius: present(v0),
                    heatmap_weight: present(v1),
                    heatmap_intensity: present(v2),
                    heatmap_color: present(v3),
                    heatmap_opacity: present(v4),
                    heatmap_emissive_strength: present(v5),
                })
            },
            Some(_) => None,
        }
    }
}

/// Paint properties of a raster layer, each kept as written.
#[derive(Debug, PartialEq)]
pub struct RasterPaint {
    pub raster_opacity: Option<JsonValue>,
    pub raster_hue_rotate: Option<JsonValue>,
    pub raster_brightness_min: Option<JsonValue>,
    pub raster_brightness_max: Option<JsonValue>,
    pub raster_saturation: Option<JsonValue>,
    pub raster_contrast: Option<JsonValue>,
    pub raster_resampling: Option<JsonValue>,
    pub raster_fade_duration: Option<JsonValue>,
    pub raster_emissive_strength: Option<JsonValue>,
}

/// `p` is the paint of a raster layer that a paint member describes: each property present
/// and not `null` is kept, and an absent paint has none.
pub open spec fn raster_paint_is(m: Option<JsonValue>, p: RasterPaint) -> bool {
    match m {
        Some(JsonValue::Object(pm)) => {
            &&& p.raster_opacity == present_value(member_of(pm@, "raster-opacity"@))
            &&& p.raster_hue_rotate == present_value(member_of(pm@, "raster-hue-rotate"@))
            &&& p.raster_brightness_min == present_value(member_of(pm@, "raster-brightness-min"@))
            &&& p.raster_brightness_max == present_value(member_of(pm@, "raster-brightness-max"@))
            &&& p.raster_saturation == present_value(member_of(pm@, "raster-saturation"@))
            &&& p.raster_contrast == present_value(member_of(pm@, "raster-contrast"@))
            &&& p.raster_resampling == present_value(member_of(pm@, "raster-resampling"@))
            &&& p.raster_fade_duration == present_value(member_of(pm@, "raster-fade-duration"@))
            &&& p.raster_emissive_strength == present_value(member_of(pm@, "raster-emissive-strength"@))
        },
        _ => {
            &&& p.raster_opacity is None
            &&& p.raster_hue_rotate is None
            &&& p.raster_brightness_min is None
            &&& p.raster_brightness_max is None
            &&& p.raster_saturation is None
            &&& p.raster_contrast is None
            &&& p.raster_resampling is None
            &&& p.raster_fade_duration is None
            &&& p.raster_emissive_strength is None
        },
    }
}

impl RasterPaint {
    /// Reads the paint of a raster layer: absent gives no property.
    pub fn from_member(m: Option<JsonValue>) -> (r: Option<RasterPaint>)
        ensures
            match r {
                Some(p) => object_or_absent(m) && raster_paint_is(m, p),
                None => !object_or_absent(m),
            },
    {
        match m {
            None => Some(RasterPaint {
                raster_opacity: None,
                raster_hue_rotate: None,
                raster_brightness_min: None,
                raster_brightness_max: None,
                raster_saturation: None,
                raster_contrast: None,
                raster_resampling: None,
                raster_fade_duration: None,
                raster_emissive_strength: None,
            }),
            Some(JsonValue::Object(pm)) => {
                let keys: Vec<&str> = vec![
                    "raster-opacity",
                    "raster-hue-rotate",
                    "raster-brightness-min",
                    "raster-brightness-max",
                    "raster-saturation",
                    "raster-contrast",
                    "raster-resampling",
                    "raster-fade-duration",
                    "raster-emissive-strength",
                ];
                proof {
                    reveal_strlit("raster-opacity");
                    reveal_strlit("raster-hue-rotate");
                    reveal_strlit("raster-brightness-min");
                    reveal_strlit("raster-brightness-max");
                    reveal_strlit("raster-saturation");
                    reveal_strlit("raster-contrast");
                    reveal_strlit("raster-resampling");
                    reveal_strlit("raster-fade-duration");
                    reveal_strlit("raster-emissive-strength");
                    assert("raster-opacity"@.len() == 14);
                    assert("raster-hue-rotate"@.len() == 17);
                    assert("raster-brightness-min"@.len() == 21);
                    assert("raster-brightness-max"@.len() == 21);
                    assert("raster-saturation"@.len() == 17);
                    assert("raster-contrast"@.len() == 15);
                    assert("raster-resampling"@.len() == 17);
                    assert("raster-fade-duration"@.len() == 20);
                    assert("raster-emissive-strength"@.len() == 24);
                    assert("raster-hue-rotate"@[7] != "raster-saturation"@[7]);
                    assert("raster-hue-rotate"@[7] != "raster-resampling"@[7]);
                    assert("raster-brightness-min"@[19] != "raster-brightness-max"@[19]);
                    assert("raster-saturation"@[7] != "raster-resampling"@[7]);
                    assert(distinct_names(keys@));
                }
                let ghost pv = pm@;
                let mut vals = take_members(pm, &keys);
                assert(vals@[0] == member_of(pv, keys@[0]@));
                assert(vals@[1] == member_of(pv, keys@[1]@));
                assert(vals@[2] == member_of(pv, keys@[2]@));
                assert(vals@[3] == member_of(pv, keys@[3]@));
                assert(vals@[4] == member_of(pv, keys@[4]@));
                assert(vals@[5] == member_of(pv, keys@[5]@));
                assert(vals@[6] == member_of(pv, keys@[6]@));
                assert(vals@[7] == member_of(pv, keys@[7]@));
                assert(vals@[8] == member_of(pv, keys@[8]@));
                let v0 = next_value(&mut vals);
                let v1 = next_value(&mut vals);
                let v2 = next_value(&mut vals);
                let v3 = next_value(&mut vals);
                let v4 = next_value(&mut vals);
                let v5 = next_value(&mut vals);
                let v6 = next_value(&mut vals);
                let v7 = next_value(&mut vals);
                let v8 = next_value(&mut vals);
                Some(RasterPaint {
                    raster_opacity: present(v0),
                    raster_hue_rotate: present(v1),
                    raster_brightness_min: present(v2),
                    raster_brightness_max: present(v3),
                    raster_saturation: present(v4),
                    raster_contrast: present(v5),
                    raster_resampling: present(v6),
                    raster_fade_duration: present(v7),
                    raster_emissive_strength: present(v8),
                })
            },
            Some(_) => None,
        }
    }
}

/// Paint properties of a hillshade layer, each kept as written.
#[derive(Debug, PartialEq)]
pub struct HillshadePaint {
    pub hillshade_illumination_direction: Option<JsonValue>,
    pub hillshade_illumination_anchor: Option<JsonValue>,
    pub hillshade_exaggeration: Option<JsonValue>,
    pub hillshade_shadow_color: Option<JsonValue>,
    pub hillshade_highlight_color: Option<JsonValue>,
    pub hillshade_accent_color: Option<JsonValue>,
    pub hillshade_emissive_strength: Option<JsonValue>,
}

/// `p` is the paint of a hillshade layer that a paint member describes: each property present
/// and not `null` is kept, and an absent paint has none.
pub open spec fn hillshade_paint_is(m: Option<JsonValue>, p: HillshadePaint) -> bool {
    match m {
        Some(JsonValue::Object(pm)) => {
            &&& p.hillshade_illumination_direction == present_value(member_of(pm@, "hillshade-illumination-direction"@))
            &&& p.hillshade_illumination_anchor == present_value(member_of(pm@, "hillshade-illumination-anchor"@))
            &&& p.hillshade_exaggeration == present_value(member_of(pm@, "hillshade-exaggeration"@))
            &&& p.hillshade_shadow_color == present_value(member_of(pm@, "hillshade-shadow-color"@))
            &&& p.hillshade_highlight_color == present_value(member_of(pm@, "hillshade-highlight-color"@))
            &&& p.hillshade_accent_color == present_value(member_of(pm@, "hillshade-accent-color"@))
            &&& p.hillshade_emissive_strength == present_value(member_of(pm@, "hillshade-emissive-strength"@))
        },
        _ => {
            &&& p.hillshade_illumination_direction is None
            &&& p.hillshade_illumination_anchor is None
            &&& p.hillshade_exaggeration is None
            &&& p.hillshade_shadow_color is None
            &&& p.hillshade_highlight_color is None
            &&& p.hillshade_accent_color is None
            &&& p.hillshade_emissive_strength is None
        },
    }
}

impl HillshadePaint {
    /// Reads the paint of a hillshade layer: absent gives no property.
    pub fn from_member(m: Option<JsonValue>) -> (r: Option<HillshadePaint>)
        ensures
            match r {
                Some(p) => object_or_absent(m) && hillshade_paint_is(m, p),
                None => !object_or_absent(m),
            },
    {
        match m {
            None => Some(HillshadePaint {
                hillshade_illumination_direction: None,
                hillshade_illumination_anchor: None,
                hillshade_exaggeration: None,
                hillshade_shadow_color: None,
                hillshade_highlight_color: None,
                hillshade_accent_color: None,
                hillshade_emissive_strength: None,
            }),
            Some(JsonValue::Object(pm)) => {
                let keys: Vec<&str> = vec![
                    "hillshade-illumination-direction",
                    "hillshade-illumination-anchor",
                    "hillshade-exaggeration",
                    "hillshade-shadow-color",
                    "hillshade-highlight-color",
                    "hillshade-accent-color",
                    "hillshade-emissive-strength",
                ];
                proof {
                    reveal_strlit("hillshade-illumination-direction");
                    reveal_strlit("hillshade-illumination-anchor");
                    reveal_strlit("hillshade-exaggeration");
                    reveal_strlit("hillshade-shadow-color");
                    reveal_strlit("hillshade-highlight-color");
                    reveal_strlit("hillshade-accent-color");
                    reveal_strlit("hillshade-emissive-strength");
                    assert("hillshade-illumination-direction"@.len() == 32);
                    assert("hillshade-illumination-anchor"@.len() == 29);
                    assert("hillshade-exaggeration"@.len() == 22);
                    assert("hillshade-shadow-color"@.len() == 22);
                    assert("hillshade-highlight-color"@.len() == 25);
                    assert("hillshade-accent-color"@.len() == 22);
                    assert("hillshade-emissive-strength"@.len() == 27);
                    assert("hillshade-exaggeration"@[10] != "hillshade-shadow-color"@[10]);
                    assert("hillshade-exaggeration"@[10] != "hillshade-accent-color"@[10]);
                    assert("hillshade-shadow-color"@[10] != "hillshade-accent-color"@[10]);
                    assert(distinct_names(keys@));
                }
                let ghost pv = pm@;
                let mut vals = take_members(pm, &keys);
                assert(vals@[0] == member_of(pv, keys@[0]@));
                assert(vals@[1] == member_of(pv, keys@[1]@));
                assert(vals@[2] == member_of(pv, keys@[2]@));
                assert(vals@[3] == member_of(pv, keys@[3]@));
                assert(vals@[4] == member_of(pv, keys@[4]@));
                assert(vals@[5] == member_of(pv, keys@[5]@));
                assert(vals@[6] == member_of(pv, keys@[6]@));
                let v0 = next_value(&mut vals);
                let v1 = next_value(&mut vals);
                let v2 = next_value(&mut vals);
                let v3 = next_value(&mut vals);
                let v4 = next_value(&mut vals);
                let v5 = next_value(&mut vals);
                let v6 = next_value(&mut vals);
                Some(HillshadePaint {
                    hillshade_illumination_direction: present(v0),
                    hillshade_illumination_anchor: present(v1),
                    hillshade_exaggeration: present(v2),
                    hillshade_shadow_color: present(v3),
                    hillshade_highlight_color: present(v4),
                    hillshade_accent_color: present(v5),
                    hillshade_emissive_strength: present(v6),
                })
            },
            Some(_) => None,
        }
    }
}

/// Paint properties of a fill-extrusion layer, each kept as written.
#[derive(Debug, PartialEq)]
pub struct FillExtrusionPaint {
    pub fill_extrusion_base: Option<JsonValue>,
    pub fill_extrusion_color: Option<JsonValue>,
    pub fill_extrusion_height: Option<JsonValue>,
    pub fill_extrusion_opacity: Option<JsonValue>,
    pub fill_extrusion_pattern: Option<JsonValue>,
    pub fill_extrusion_translate: Option<JsonValue>,
    pub fill_extrusion_translate_anchor: Option<JsonValue>,
    pub fill_extrusion_flood_light_color: Option<JsonValue>,
    pub fill_extrusion_flood_light_intensity: Option<JsonValue>,
    pub fill_extrusion_emissive_strength: Option<JsonValue>,
}

/// `p` is the paint of a fill-extrusion layer that a paint member describes: each property present
/// and not `null` is kept, and an absent paint has none.
pub open spec fn fill_extrusion_paint_is(m: Option<JsonValue>, p: FillExtrusionPaint) -> bool {
    match m {
        Some(JsonValue::Object(pm)) => {
            &&& p.fill_extrusion_base == present_value(member_of(pm@, "fill-extrusion-base"@))
            &&& p.fill_extrusion_color == present_value(member_of(pm@, "fill-extrusion-color"@))
            &&& p.fill_extrusion_height == present_value(member_of(pm@, "fill-extrusion-height"@))
            &&& p.fill_extrusion_opacity == present_value(member_of(pm@, "fill-extrusion-opacity"@))
            &&& p.fill_extrusion_pattern == present_value(member_of(pm@, "fill-extrusion-pattern"@))
            &&& p.fill_extrusion_translate == present_value(member_of(pm@, "fill-extrusion-translate"@))
            &&& p.fill_extrusion_translate_anchor == present_value(member_of(pm@, "fill-extrusion-translate-anchor"@))
            &&& p.fill_extrusion_flood_light_color == present_value(member_of(pm@, "fill-extrusion-flood-light-color"@))
            &&& p.fill_extrusion_flood_light_intensity == present_value(member_of(pm@, "fill-extrusion-flood-light-intensity"@))
            &&& p.fill_extrusion_emissive_strength == present_value(member_of(pm@, "fill-extrusion-emissive-strength"@))
        },
        _ => {
            &&& p.fill_extrusion_base is None
            &&& p.fill_extrusion_color is None
            &&& p.fill_extrusion_height is None
            &&& p.fill_extrusion_opacity is None
            &&& p.fill_extrusion_pattern is None
            &&& p.fill_extrusion_translate is None
            &&& p.fill_extrusion_translate_anchor is None
            &&& p.fill_extrusion_flood_light_color is None
            &&& p.fill_extrusion_flood_light_intensity is None
            &&& p.fill_extrusion_emissive_strength is None
        },
    }
}

impl FillExtrusionPaint {
    /// Reads the paint of a fill-extrusion layer: absent gives no property.
    pub fn from_member(m: Option<JsonValue>) -> (r: Option<FillExtrusionPaint>)
        ensures
            match r {
                Some(p) => object_or_absent(m) && fill_extrusion_paint_is(m, p),
                None => !object_or_absent(m),
            },
    {
        match m {
            None => Some(FillExtrusionPaint {
                fill_extrusion_base: None,
                fill_extrusion_color: None,
                fill_extrusion_height: None,
                fill_extrusion_opacity: None,
                fill_extrusion_pattern: None,
                fill_extrusion_translate: None,
                fill_extrusion_translate_anchor: None,
                fill_extrusion_flood_light_color: None,
                fill_extrusion_flood_light_intensity: None,
                fill_extrusion_emissive_strength: None,
            }),
            Some(JsonValue::Object(pm)) => {
                let keys: Vec<&str> = vec![
                    "fill-extrusion-base",
                    "fill-extrusion-color",
                    "fill-extrusion-height",
                    "fill-extrusion-opacity",
                    "fill-extrusion-pattern",
                    "fill-extrusion-translate",
                    "fill-extrusion-translate-anchor",
                    "fill-extrusion-flood-light-color",
                    "fill-extrusion-flood-light-intensity",
                    "fill-extrusion-emissive-strength",
                ];
                proof {
                    reveal_strlit("fill-extrusion-base");
                    reveal_strlit("fill-extrusion-color");
                    reveal_strlit("fill-extrusion-height");
                    reveal_strlit("fill-extrusion-opacity");
                    reveal_strlit("fill-extrusion-pattern");
                    reveal_strlit("fill-extrusion-translate");
                    reveal_strlit("fill-extrusion-translate-anchor");
                    reveal_strlit("fill-extrusion-flood-light-color");
                    reveal_strlit("fill-extrusion-flood-light-intensity");
                    reveal_strlit("fill-extrusion-emissive-strength");
                    assert("fill-extrusion-base"@.len() == 19);
                    assert("fill-extrusion-color"@.len() == 20);
                    assert("fill-extrusion-height"@.len() == 21);
                    assert("fill-extrusion-opacity"@.len() == 22);
                    assert("fill-extrusion-pattern"@.len() == 22);
                    assert("fill-extrusion-translate"@.len() == 24);
                    assert("fill-extrusion-translate-anchor"@.len() == 31);
                    assert("fill-extrusion-flood-light-color"@.len() == 32);
                    assert("fill-extrusion-flood-light-intensity"@.len() == 36);
                    assert("fill-extrusion-emissive-strength"@.len() == 32);
                    assert("fill-extrusion-opacity"@[15] != "fill-extrusion-pattern"@[15]);
                    assert("fill-extrusion-flood-light-color"@[15] != "fill-extrusion-emissive-strength"@[15]);
                    assert(distinct_names(keys@));
                }
                let ghost pv = pm@;
                let mut vals = take_members(pm, &keys);
                assert(vals@[0] == member_of(pv, keys@[0]@));
                assert(vals@[1] == member_of(pv, keys@[1]@));
                assert(vals@[2] == member_of(pv, keys@[2]@));
                assert(vals@[3] == member_of(pv, keys@[3]@));
                assert(vals@[4] == member_of(pv, keys@[4]@));
                assert(vals@[5] == member_of(pv, keys@[5]@));
                assert(vals@[6] == member_of(pv, keys@[6]@));
                assert(vals@[7] == member_of(pv, keys@[7]@));
                assert(vals@[8] == member_of(pv, keys@[8]@));
                assert(vals@[9] == member_of(pv, keys@[9]@));
                let v0 = next_value(&mut vals);
                let v1 = next_value(&mut vals);
                let v2 = next_value(&mut vals);
                let v3 = next_value(&mut vals);
                let v4 = next_value(&mut vals);
                let v5 = next_value(&mut vals);
                let v6 = next_value(&mut vals);
                let v7 = next_value(&mut vals);
                let v8 = next_value(&mut vals);
                let v9 = next_value(&mut vals);
                Some(FillExtrusionPaint {
                    fill_extrusion_base: present(v0),
                    fill_extrusion_color: present(v1),
                    fill_extrusion_height: present(v2),
                    fill_extrusion_opacity: present(v3),
                    fill_extrusion_pattern: present(v4),
                    fill_extrusion_translate: present(v5),
                    fill_extrusion_translate_anchor: present(v6),
                    fill_extrusion_flood_light_color: present(v7),
                    fill_extrusion_flood_light_intensity: present(v8),
                    fill_extrusion_emissive_strength: present(v9),
                })
            },
            Some(_) => None,
        }
    }
}

/// Paint properties of a sky layer, each kept as written.
#[derive(Debug, PartialEq)]
pub struct SkyPaint {
    pub sky_type: Option<JsonValue>,
    pub sky_atmosphere_color: Option<JsonValue>,
    pub sky_atmosphere_halo_color: Option<JsonValue>,
    pub sky_atmosphere_sun: Option<JsonValue>,
    pub sky_atmosphere_sun_intensity: Option<JsonValue>,
    pub sky_gradient: Option<JsonValue>,
    pub sky_gradient_center: Option<JsonValue>,
    pub sky_gradient_radius: Option<JsonValue>,
    pub sky_opacity: Option<JsonValue>,
}

/// `p` is the paint of a sky layer that a paint member describes: each property present
/// and not `null` is kept, and an absent paint has none.
pub open spec fn sky_paint_is(m: Option<JsonValue>, p: SkyPaint) -> bool {
    match m {
        Some(JsonValue::Object(pm)) => {
            &&& p.sky_type == present_value(member_of(pm@, "sky-type"@))
            &&& p.sky_atmosphere_color == present_value(member_of(pm@, "sky-atmosphere-color"@))
            &&& p.sky_atmosphere_halo_color == present_value(member_of(pm@, "sky-atmosphere-halo-color"@))
            &&& p.sky_atmosphere_sun == present_value(member_of(pm@, "sky-atmosphere-sun"@))
            &&& p.sky_atmosphere_sun_intensity == present_value(member_of(pm@, "sky-atmosphere-sun-intensity"@))
            &&& p.sky_gradient == present_value(member_of(pm@, "sky-gradient"@))
            &&& p.sky_gradient_center == present_value(member_of(pm@, "sky-gradient-center"@))
            &&& p.sky_gradient_radius == present_value(member_of(pm@, "sky-gradient-radius"@))
            &&& p.sky_opacity == present_value(member_of(pm@, "sky-opacity"@))
        },
        _ => {
            &&& p.sky_type is None
            &&& p.sky_atmosphere_color is None
            &&& p.sky_atmosphere_halo_color is None
            &&& p.sky_atmosphere_sun is None
            &&& p.sky_atmosphere_sun_intensity is None
            &&& p.sky_gradient is None
            &&& p.sky_gradient_center is None
            &&& p.sky_gradient_radius is None
            &&& p.sky_opacity is None
        },
    }
}

impl SkyPaint {
    /// Reads the paint of a sky layer: absent gives no property.
    pub fn from_member(m: Option<JsonValue>) -> (r: Option<SkyPaint>)
        ensures
            match r {
                Some(p) => object_or_absent(m) && sky_paint_is(m, p),
                None => !object_or_absent(m),
            },
    {
        match m {
            None => Some(SkyPaint {
                sky_type: None,
                sky_atmosphere_color: None,
                sky_atmosphere_halo_color: None,
                sky_atmosphere_sun: None,
                sky_atmosphere_sun_intensity: None,
                sky_gradient: None,
                sky_gradient_center: None,
                sky_gradient_radius: None,
                sky_opacity: None,
            }),
            Some(JsonValue::Object(pm)) => {
                let keys: Vec<&str> = vec![
                    "sky-type",
                    "sky-atmosphere-color",
                    "sky-atmosphere-halo-color",
                    "sky-atmosphere-sun",
                    "sky-atmosphere-sun-intensity",
                    "sky-gradient",
                    "sky-gradient-center",
                    "sky-gradient-radius",
                    "sky-opacity",
                ];
                proof {
                    reveal_strlit("sky-type");
                    reveal_strlit("sky-atmosphere-color");
                    reveal_strlit("sky-atmosphere-halo-color");
                    reveal_strlit("sky-atmosphere-sun");
                    reveal_strlit("sky-atmosphere-sun-intensity");
                    reveal_strlit("sky-gradient");
                    reveal_strlit("sky-gradient-center");
                    reveal_strlit("sky-gradient-radius");
                    reveal_strlit("sky-opacity");
                    assert("sky-type"@.len() == 8);
                    assert("sky-atmosphere-color"@.len() == 20);
                    assert("sky-atmosphere-halo-color"@.len() == 25);
                    assert("sky-atmosphere-sun"@.len() == 18);
                    assert("sky-atmosphere-sun-intensity"@.len() == 28);
                    assert("sky-gradient"@.len() == 12);
                    assert("sky-gradient-center"@.len() == 19);
                    assert("sky-gradient-radius"@.len() == 19);
                    assert("sky-opacity"@.len() == 11);
                    assert("sky-gradient-center"@[13] != "sky-gradient-radius"@[13]);
                    assert(distinct_names(keys@));
                }
                let ghost pv = pm@;
                let mut vals = take_members(pm, &keys);
                assert(vals@[0] == member_of(pv, keys@[0]@));
                assert(vals@[1] == member_of(pv, keys@[1]@));
                assert(vals@[2] == member_of(pv, keys@[2]@));
                assert(vals@[3] == member_of(pv, keys@[3]@));
                assert(vals@[4] == member_of(pv, keys@[4]@));
                assert(vals@[5] == member_of(pv, keys@[5]@));
                assert(vals@[6] == member_of(pv, keys@[6]@));
                assert(vals@[7] == member_of(pv, keys@[7]@));
                assert(vals@[8] == member_of(pv, keys@[8]@));
                let v0 = next_value(&mut vals);
                let v1 = next_value(&mut vals);
                let v2 = next_value(&mut vals);
                let v3 = next_value(&mut vals);
                let v4 = next_value(&mut vals);
                let v5 = next_value(&mut vals);
                let v6 = next_value(&mut vals);
                let v7 = next_value(&mut vals);
                let v8 = next_value(&mut vals);
                Some(SkyPaint {
                    sky_type: present(v0),
                    sky_atmosphere_color: present(v1),
                    sky_atmosphere_halo_color: present(v2),
                    sky_atmosphere_sun: present(v3),
                    sky_atmosphere_sun_intensity: present(v4),
                    sky_gradient: present(v5),
                    sky_gradient_center: present(v6),
                    sky_gradient_radius: present(v7),
                    sky_opacity: present(v8),
                })
            },
            Some(_) => None,
        }
    }
}

/// Layout properties of a circle layer.
#[derive(Debug, PartialEq)]
pub struct CircleLayout {
    pub visibility: Visibility,
    pub circle_sort_key: Option<JsonValue>,
}

/// The layout of a circle layer that a layout member reads as: absent gives the default, an
/// object is read, and anything else is invalid.
pub open spec fn circle_layout_of(m: Option<JsonValue>) -> Option<CircleLayout> {
    match m {
        None => Some(CircleLayout { visibility: Visibility::Visible, circle_sort_key: None }),
        Some(JsonValue::Object(lm)) => Some(
            CircleLayout {
                visibility: visibility_field(member_of(lm@, "visibility"@)),
                circle_sort_key: present_value(member_of(lm@, "circle-sort-key"@)),
            },
        ),
        _ => None,
    }
}

impl CircleLayout {
    /// Reads the layout of a circle layer.
    pub fn from_member(m: Option<JsonValue>) -> (r: Option<CircleLayout>)
        ensures
            r == circle_layout_of(m),
    {
        match m {
            None => Some(CircleLayout { visibility: Visibility::Visible, circle_sort_key: None }),
            Some(JsonValue::Object(lm)) => {
                let visibility = match member(&lm, "visibility") {
                    Some(v) => visibility_or_default(v),
                    None => Visibility::Visible,
                };
                let mut lm = lm;
                let sort_key = take_member(&mut lm, "circle-sort-key");
                Some(CircleLayout { visibility, circle_sort_key: present(sort_key) })
            },
            Some(_) => None,
        }
    }
}

/// A slot layer marks the place of the layers of an imported style.
#[derive(Debug, PartialEq)]
pub struct SlotLayer {
    pub id: String,
    pub metadata: Option<JsonValue>,
}

/// `l` is the slot layer that the members describe.
pub open spec fn slot_layer_is(m: Seq<(String, JsonValue)>, l: SlotLayer) -> bool {
    &&& string_field(member_of(m, "id"@)) == Some(l.id)
    &&& l.metadata == present_value(member_of(m, "metadata"@))
}

impl SlotLayer {
    /// Reads a slot layer from the members of its object.
    pub fn from_members(m: Vec<(String, JsonValue)>, id: String) -> (r: SlotLayer)
        requires
            string_field(member_of(m@, "id"@)) == Some(id),
        ensures
            slot_layer_is(m@, r),
    {
        let mut m = m;
        let metadata = take_member(&mut m, "metadata");
        SlotLayer { id, metadata: present(metadata) }
    }
}

/// A clip layer removes 3D content or symbols within its geometry.
#[derive(Debug, PartialEq)]
pub struct ClipLayer {
    pub id: String,
    pub source: Option<String>,
    pub source_layer: Option<String>,
    pub metadata: Option<JsonValue>,
    pub minzoom: Option<Num>,
    pub maxzoom: Option<Num>,
    /// The filter, kept as written.
    pub filter: Option<JsonValue>,
    pub clip_layer_types: Option<Vec<String>>,
}

/// Whether the members of a clip layer are all well-formed: its zoom levels must be present,
/// though a malformed one is read as none.
pub open spec fn clip_layer_ok(m: Seq<(String, JsonValue)>) -> bool {
    &&& opt_string_field(member_of(m, "source"@)) is Some
    &&& opt_string_field(member_of(m, "source-layer"@)) is Some
    &&& member_of(m, "minzoom"@) is Some
    &&& member_of(m, "maxzoom"@) is Some
    &&& opt_strings_field(member_of(m, "clip-layer-types"@)) is Some
}

/// `l` is the clip layer that the members describe.
pub open spec fn clip_layer_is(m: Seq<(String, JsonValue)>, l: ClipLayer) -> bool {
    &&& string_field(member_of(m, "id"@)) == Some(l.id)
    &&& opt_string_field(member_of(m, "source"@)) == Some(l.source)
    &&& opt_string_field(member_of(m, "source-layer"@)) == Some(l.source_layer)
    &&& l.metadata == present_value(member_of(m, "metadata"@))
    &&& l.minzoom == lenient_num(member_of(m, "minzoom"@))
    &&& l.maxzoom == lenient_num(member_of(m, "maxzoom"@))
    &&& l.filter == present_value(member_of(m, "filter"@))
    &&& opt_strings_field(member_of(m, "clip-layer-types"@)) matches Some(f) && strings_read_as(
        l.clip_layer_types,
        f,
    )
}

impl ClipLayer {
    /// Reads a clip layer from the members of its object.
    pub fn from_members(m: Vec<(String, JsonValue)>, id: String) -> (r: Option<ClipLayer>)
        requires
            string_field(member_of(m@, "id"@)) == Some(id),
        ensures
            match r {
                Some(l) => clip_layer_ok(m@) && clip_layer_is(m@, l),
                None => !clip_layer_ok(m@),
            },
    {
        let source = match read_opt_string(&m, "source") { Some(x) => x, None => { return None; } };
        let source_layer = match read_opt_string(&m, "source-layer") { Some(x) => x, None => { return None; } };
        if member(&m, "minzoom").is_none() || member(&m, "maxzoom").is_none() {
            return None;
        }
        let minzoom = read_lenient_num(&m, "minzoom");
        let maxzoom = read_lenient_num(&m, "maxzoom");
        let clip_layer_types = match read_opt_strings(&m, "clip-layer-types") {
            Some(x) => x,
            None => { return None; },
        };
        let mut parts = take_layer_parts(m);
        let metadata = next_value(&mut parts);
        let _layout = next_value(&mut parts);
        let _paint = next_value(&mut parts);
        let filter = next_value(&mut parts);
        Some(ClipLayer {
            id,
            source,
            source_layer,
            metadata: present(metadata),
            minzoom,
            maxzoom,
            filter: present(filter),
            clip_layer_types,
        })
    }
}


/// A circle layer draws circles at points.
#[derive(Debug, PartialEq)]
pub struct CircleLayer {
    pub id: String,
    pub source: Option<String>,
    pub source_layer: Option<String>,
    pub metadata: Option<JsonValue>,
    pub minzoom: Option<Num>,
    pub maxzoom: Option<Num>,
    /// The filter, kept as written.
    pub filter: Option<JsonValue>,
    pub layout: CircleLayout,
    pub paint: CirclePaint,
}

/// Whether the members of a circle layer are all well-formed.
pub open spec fn circle_layer_ok(m: Seq<(String, JsonValue)>) -> bool {
    &&& opt_string_field(member_of(m, "source"@)) is Some
    &&& opt_string_field(member_of(m, "source-layer"@)) is Some
    &&& circle_layout_of(member_of(m, "layout"@)) is Some
    &&& object_or_absent(member_of(m, "paint"@))
}

/// `l` is the circle layer that the members describe.
pub open spec fn circle_layer_is(m: Seq<(String, JsonValue)>, l: CircleLayer) -> bool {
    &&& string_field(member_of(m, "id"@)) == Some(l.id)
    &&& opt_string_field(member_of(m, "source"@)) == Some(l.source)
    &&& opt_string_field(member_of(m, "source-layer"@)) == Some(l.source_layer)
    &&& l.metadata == present_value(member_of(m, "metadata"@))
    &&& l.minzoom == lenient_num(member_of(m, "minzoom"@))
    &&& l.maxzoom == lenient_num(member_of(m, "maxzoom"@))
    &&& l.filter == present_value(member_of(m, "filter"@))
    &&& circle_layout_of(member_of(m, "layout"@)) == Some(l.layout)
    &&& circle_paint_is(member_of(m, "paint"@), l.paint)
}

impl CircleLayer {
    /// Reads a circle layer from the members of its object.
    pub fn from_members(m: Vec<(String, JsonValue)>, id: String) -> (r: Option<CircleLayer>)
        requires
            string_field(member_of(m@, "id"@)) == Some(id),
        ensures
            match r {
                Some(l) => circle_layer_ok(m@) && circle_layer_is(m@, l),
                None => !circle_layer_ok(m@),
            },
    {
        let source = match read_opt_string(&m, "source") { Some(x) => x, None => { return None; } };
        let source_layer = match read_opt_string(&m, "source-layer") { Some(x) => x, None => { return None; } };
        let minzoom = read_lenient_num(&m, "minzoom");
        let maxzoom = read_lenient_num(&m, "maxzoom");
        let mut parts = take_layer_parts(m);
        let metadata = next_value(&mut parts);
        let layout_member = next_value(&mut parts);
        let paint_member = next_value(&mut parts);
        let filter_member = next_value(&mut parts);
        let layout = match CircleLayout::from_member(layout_member) {
            Some(l) => l,
            None => { return None; },
        };
        let paint = match CirclePaint::from_member(paint_member) {
            Some(p) => p,
            None => { return None; },
        };
        Some(CircleLayer {
            id,
            source,
            source_layer,
            metadata: present(metadata),
            minzoom,
            maxzoom,
            filter: present(filter_member),
            layout,
            paint,
        })
    }
}

/// A heatmap layer draws the density of points.
#[derive(Debug, PartialEq)]
pub struct HeatmapLayer {
    pub id: String,
    pub source: Option<String>,
    pub source_layer: Option<String>,
    pub metadata: Option<JsonValue>,
    pub minzoom: Option<Num>,
    pub maxzoom: Option<Num>,
    /// The filter, kept as written.
    pub filter: Option<JsonValue>,
    pub layout: CommonLayout,
    pub paint: HeatmapPaint,
}

/// Whether the members of a heatmap layer are all well-formed.
pub open spec fn heatmap_layer_ok(m: Seq<(String, JsonValue)>) -> bool {
    &&& opt_string_field(member_of(m, "source"@)) is Some
    &&& opt_string_field(member_of(m, "source-layer"@)) is Some
    &&& common_layout_of(member_of(m, "layout"@)) is Some
    &&& object_or_absent(member_of(m, "paint"@))
}

/// `l` is the heatmap layer that the members describe.
pub open spec fn heatmap_layer_is(m: Seq<(String, JsonValue)>, l: HeatmapLayer) -> bool {
    &&& string_field(member_of(m, "id"@)) == Some(l.id)
    &&& opt_string_field(member_of(m, "source"@)) == Some(l.source)
    &&& opt_string_field(member_of(m, "source-layer"@)) == Some(l.source_layer)
    &&& l.metadata == present_value(member_of(m, "metadata"@))
    &&& l.minzoom == lenient_num(member_of(m, "minzoom"@))
    &&& l.maxzoom == lenient_num(member_of(m, "maxzoom"@))
    &&& l.filter == present_value(member_of(m, "filter"@))
    &&& common_layout_of(member_of(m, "layout"@)) == Some(l.layout)
    &&& heatmap_paint_is(member_of(m, "paint"@), l.paint)
}

impl HeatmapLayer {
    /// Reads a heatmap layer from the members of its object.
    pub fn from_members(m: Vec<(String, JsonValue)>, id: String) -> (r: Option<HeatmapLayer>)
        requires
            string_field(member_of(m@, "id"@)) == Some(id),
        ensures
            match r {
                Some(l) => heatmap_layer_ok(m@) && heatmap_layer_is(m@, l),
                None => !heatmap_layer_ok(m@),
            },
    {
        let source = match read_opt_string(&m, "source") { Some(x) => x, None => { return None; } };
        let source_layer = match read_opt_string(&m, "source-layer") { Some(x) => x, None => { return None; } };
        let minzoom = read_lenient_num(&m, "minzoom");
        let maxzoom = read_lenient_num(&m, "maxzoom");
        let layout = match read_common_layout(member(&m, "layout")) {
            Some(l) => l,
            None => { return None; },
        };
        let mut parts = take_layer_parts(m);
        let metadata = next_value(&mut parts);
        let layout_member = next_value(&mut parts);
        let paint_member = next_value(&mut parts);
        let filter_member = next_value(&mut parts);
        let paint = match HeatmapPaint::from_member(paint_member) {
            Some(p) => p,
            None => { return None; },
        };
        Some(HeatmapLayer {
            id,
            source,
            source_layer,
            metadata: present(metadata),
            minzoom,
            maxzoom,
            filter: present(filter_member),
            layout,
            paint,
        })
    }
}

/// A raster layer draws raster tiles.
#[derive(Debug, PartialEq)]
pub struct RasterLayer {
    pub id: String,
    pub source: Option<String>,
    pub source_layer: Option<String>,
    pub metadata: Option<JsonValue>,
    pub minzoom: Option<Num>,
    pub maxzoom: Option<Num>,
    /// The filter, kept as written.
    pub filter: Option<JsonValue>,
    pub layout: CommonLayout,
    pub paint: RasterPaint,
}

/// Whether the members of a raster layer are all well-formed.
pub open spec fn raster_layer_ok(m: Seq<(String, JsonValue)>) -> bool {
    &&& opt_string_field(member_of(m, "source"@)) is Some
    &&& opt_string_field(member_of(m, "source-layer"@)) is Some
    &&& common_layout_of(member_of(m, "layout"@)) is Some
    &&& object_or_absent(member_of(m, "paint"@))
}

/// `l` is the raster layer that the members describe.
pub open spec fn raster_layer_is(m: Seq<(String, JsonValue)>, l: RasterLayer) -> bool {
    &&& string_field(member_of(m, "id"@)) == Some(l.id)
    &&& opt_string_field(member_of(m, "source"@)) == Some(l.source)
    &&& opt_string_field(member_of(m, "source-layer"@)) == Some(l.source_layer)
    &&& l.metadata == present_value(member_of(m, "metadata"@))
    &&& l.minzoom == lenient_num(member_of(m, "minzoom"@))
    &&& l.maxzoom == lenient_num(member_of(m, "maxzoom"@))
    &&& l.filter == present_value(member_of(m, "filter"@))
    &&& common_layout_of(member_of(m, "layout"@)) == Some(l.layout)
    &&& raster_paint_is(member_of(m, "paint"@), l.paint)
}

impl RasterLayer {
    /// Reads a raster layer from the members of its object.
    pub fn from_members(m: Vec<(String, JsonValue)>, id: String) -> (r: Option<RasterLayer>)
        requires
            string_field(member_of(m@, "id"@)) == Some(id),
        ensures
            match r {
                Some(l) => raster_layer_ok(m@) && raster_layer_is(m@, l),
                None => !raster_layer_ok(m@),
            },
    {
        let source = match read_opt_string(&m, "source") { Some(x) => x, None => { return None; } };
        let source_layer = match read_opt_string(&m, "source-layer") { Some(x) => x, None => { return None; } };
        let minzoom = read_lenient_num(&m, "minzoom");
        let maxzoom = read_lenient_num(&m, "maxzoom");
        let layout = match read_common_layout(member(&m, "layout")) {
            Some(l) => l,
            None => { return None; },
        };
        let mut parts = take_layer_parts(m);
        let metadata = next_value(&mut parts);
        let layout_member = next_value(&mut parts);
        let paint_member = next_value(&mut parts);
        let filter_member = next_value(&mut parts);
        let paint = match RasterPaint::from_member(paint_member) {
            Some(p) => p,
            None => { return None; },
        };
        Some(RasterLayer {
            id,
            source,
            source_layer,
            metadata: present(metadata),
            minzoom,
            maxzoom,
            filter: present(filter_member),
            layout,
            paint,
        })
    }
}

/// A hillshade layer shades terrain from elevation tiles.
#[derive(Debug, PartialEq)]
pub struct HillshadeLayer {
    pub id: String,
    pub source: Option<String>,
    pub source_layer: Option<String>,
    pub metadata: Option<JsonValue>,
    pub minzoom: Option<Num>,
    pub maxzoom: Option<Num>,
    pub layout: CommonLayout,
    pub paint: HillshadePaint,
}

/// Whether the members of a hillshade layer are all well-formed.
pub open spec fn hillshade_layer_ok(m: Seq<(String, JsonValue)>) -> bool {
    &&& opt_string_field(member_of(m, "source"@)) is Some
    &&& opt_string_field(member_of(m, "source-layer"@)) is Some
    &&& common_layout_of(member_of(m, "layout"@)) is Some
    &&& object_or_absent(member_of(m, "paint"@))
}

/// `l` is the hillshade layer that the members describe.
pub open spec fn hillshade_layer_is(m: Seq<(String, JsonValue)>, l: HillshadeLayer) -> bool {
    &&& string_field(member_of(m, "id"@)) == Some(l.id)
    &&& opt_string_field(member_of(m, "source"@)) == Some(l.source)
    &&& opt_string_field(member_of(m, "source-layer"@)) == Some(l.source_layer)
    &&& l.metadata == present_value(member_of(m, "metadata"@))
    &&& l.minzoom == lenient_num(member_of(m, "minzoom"@))
    &&& l.maxzoom == lenient_num(member_of(m, "maxzoom"@))
    &&& common_layout_of(member_of(m, "layout"@)) == Some(l.layout)
    &&& hillshade_paint_is(member_of(m, "paint"@), l.paint)
}

impl HillshadeLayer {
    /// Reads a hillshade layer from the members of its object.
    pub fn from_members(m: Vec<(String, JsonValue)>, id: String) -> (r: Option<HillshadeLayer>)
        requires
            string_field(member_of(m@, "id"@)) == Some(id),
        ensures
            match r {
                Some(l) => hillshade_layer_ok(m@) && hillshade_layer_is(m@, l),
                None => !hillshade_layer_ok(m@),
            },
    {
        let source = match read_opt_string(&m, "source") { Some(x) => x, None => { return None; } };
        let source_layer = match read_opt_string(&m, "source-layer") { Some(x) => x, None => { return None; } };
        let minzoom = read_lenient_num(&m, "minzoom");
        let maxzoom = read_lenient_num(&m, "maxzoom");
        let layout = match read_common_layout(member(&m, "layout")) {
            Some(l) => l,
            None => { return None; },
        };
        let mut parts = take_layer_parts(m);
        let metadata = next_value(&mut parts);
        let layout_member = next_value(&mut parts);
        let paint_member = next_value(&mut parts);
        let filter_member = next_value(&mut parts);
        let paint = match HillshadePaint::from_member(paint_member) {
            Some(p) => p,
            None => { return None; },
        };
        Some(HillshadeLayer {
            id,
            source,
            source_layer,
            metadata: present(metadata),
            minzoom,
            maxzoom,
            layout,
            paint,
        })
    }
}

/// A fill-extrusion layer draws extruded polygons.
#[derive(Debug, PartialEq)]
pub struct FillExtrusionLayer {
    pub id: String,
    pub source: Option<String>,
    pub source_layer: Option<String>,
    pub metadata: Option<JsonValue>,
    pub minzoom: Option<Num>,
    pub maxzoom: Option<Num>,
    /// The filter, kept as written.
    pub filter: Option<JsonValue>,
    pub layout: CommonLayout,
    pub paint: FillExtrusionPaint,
}

/// Whether the members of a fill-extrusion layer are all well-formed.
pub open spec fn fill_extrusion_layer_ok(m: Seq<(String, JsonValue)>) -> bool {
    &&& opt_string_field(member_of(m, "source"@)) is Some
    &&& opt_string_field(member_of(m, "source-layer"@)) is Some
    &&& common_layout_of(member_of(m, "layout"@)) is Some
    &&& object_or_absent(member_of(m, "paint"@))
}

/// `l` is the fill-extrusion layer that the members describe.
pub open spec fn fill_extrusion_layer_is(m: Seq<(String, JsonValue)>, l: FillExtrusionLayer) -> bool {
    &&& string_field(member_of(m, "id"@)) == Some(l.id)
    &&& opt_string_field(member_of(m, "source"@)) == Some(l.source)
    &&& opt_string_field(member_of(m, "source-layer"@)) == Some(l.source_layer)
    &&& l.metadata == present_value(member_of(m, "metadata"@))
    &&& l.minzoom == lenient_num(member_of(m, "minzoom"@))
    &&& l.maxzoom == lenient_num(member_of(m, "maxzoom"@))
    &&& l.filter == present_value(member_of(m, "filter"@))
    &&& common_layout_of(member_of(m, "layout"@)) == Some(l.layout)
    &&& fill_extrusion_paint_is(member_of(m, "paint"@), l.paint)
}

impl FillExtrusionLayer {
    /// Reads a fill-extrusion layer from the members of its object.
    pub fn from_members(m: Vec<(String, JsonValue)>, id: String) -> (r: Option<FillExtrusionLayer>)
        requires
            string_field(member_of(m@, "id"@)) == Some(id),
        ensures
            match r {
                Some(l) => fill_extrusion_layer_ok(m@) && fill_extrusion_layer_is(m@, l),
                None => !fill_extrusion_layer_ok(m@),
            },
    {
        let source = match read_opt_string(&m, "source") { Some(x) => x, None => { return None; } };
        let source_layer = match read_opt_string(&m, "source-layer") { Some(x) => x, None => { return None; } };
        let minzoom = read_lenient_num(&m, "minzoom");
        let maxzoom = read_lenient_num(&m, "maxzoom");
        let layout = match read_common_layout(member(&m, "layout")) {
            Some(l) => l,
            None => { return None; },
        };
        let mut parts = take_layer_parts(m);
        let metadata = next_value(&mut parts);
        let layout_member = next_value(&mut parts);
        let paint_member = next_value(&mut parts);
        let filter_member = next_value(&mut parts);
        let paint = match FillExtrusionPaint::from_member(paint_member) {
            Some(p) => p,
            None => { return None; },
        };
        Some(FillExtrusionLayer {
            id,
            source,
            source_layer,
            metadata: present(metadata),
            minzoom,
            maxzoom,
            filter: present(filter_member),
            layout,
            paint,
        })
    }
}

/// A sky layer draws the dome of the sky.
#[derive(Debug, PartialEq)]
pub struct SkyLayer {
    pub id: String,
    pub metadata: Option<JsonValue>,
    pub minzoom: Option<Num>,
    pub maxzoom: Option<Num>,
    pub layout: CommonLayout,
    pub paint: SkyPaint,
}

/// Whether the members of a sky layer are all well-formed.
pub open spec fn sky_layer_ok(m: Seq<(String, JsonValue)>) -> bool {
    &&& common_layout_of(member_of(m, "layout"@)) is Some
    &&& object_or_absent(member_of(m, "paint"@))
}

/// `l` is the sky layer that the members describe.
pub open spec fn sky_layer_is(m: Seq<(String, JsonValue)>, l: SkyLayer) -> bool {
    &&& string_field(member_of(m, "id"@)) == Some(l.id)
    &&& l.metadata == present_value(member_of(m, "metadata"@))
    &&& l.minzoom == lenient_num(member_of(m, "minzoom"@))
    &&& l.maxzoom == lenient_num(member_of(m, "maxzoom"@))
    &&& common_layout_of(member_of(m, "layout"@)) == Some(l.layout)
    &&& sky_paint_is(member_of(m, "paint"@), l.paint)
}

impl SkyLayer {
    /// Reads a sky layer from the members of its object.
    pub fn from_members(m: Vec<(String, JsonValue)>, id: String) -> (r: Option<SkyLayer>)
        requires
            string_field(member_of(m@, "id"@)) == Some(id),
        ensures
            match r {
                Some(l) => sky_layer_ok(m@) && sky_layer_is(m@, l),
                None => !sky_layer_ok(m@),
            },
    {
        let minzoom = read_lenient_num(&m, "minzoom");
        let maxzoom = read_lenient_num(&m, "maxzoom");
        let layout = match read_common_layout(member(&m, "layout")) {
            Some(l) => l,
            None => { return None; },
        };
        let mut parts = take_layer_parts(m);
        let metadata = next_value(&mut parts);
        let layout_member = next_value(&mut parts);
        let paint_member = next_value(&mut parts);
        let filter_member = next_value(&mut parts);
        let paint = match SkyPaint::from_member(paint_member) {
            Some(p) => p,
            None => { return None; },
        };
        Some(SkyLayer {
            id,
            metadata: present(metadata),
            minzoom,
            maxzoom,
            layout,
            paint,
        })
    }
}

impl Layer {
    /// Reads a layer. Layers are read in full by their type; symbol and color-relief layers
    /// are kept by their type, identifier and source.
    pub fn from_json(v: JsonValue) -> (r: Result<Layer, DocumentError>)
        ensures
            match v {
                JsonValue::Object(_) => match r {
                    Ok(l) => layer_ok(v) && layer_is(v, l),
                    Err(e) => !layer_ok(v) && e == DocumentError::InvalidField,
                },
                _ => r == Err::<Layer, DocumentError>(DocumentError::NotAnObject),
            },
    {
        match v {
            JsonValue::Object(m) => {
                let t = match read_string(&m, "type") {
                    Some(t) => t,
                    None => { return Err(DocumentError::InvalidField); },
                };
                let id = match read_string(&m, "id") {
                    Some(id) => id,
                    None => { return Err(DocumentError::InvalidField); },
                };
                if str_eq(t.as_str(), "background") {
                    match BackgroundLayer::from_members(m, id) {
                        Some(b) => Ok(Layer::Background(b)),
                        None => Err(DocumentError::InvalidField),
                    }
                } else if str_eq(t.as_str(), "fill") {
                    match FillLayer::from_members(m, id) {
                        Some(f) => Ok(Layer::Fill(f)),
                        None => Err(DocumentError::InvalidField),
                    }
                } else if str_eq(t.as_str(), "line") {
                    match LineLayer::from_members(m, id) {
                        Some(x) => Ok(Layer::Line(x)),
                        None => Err(DocumentError::InvalidField),
                    }
                } else if str_eq(t.as_str(), "circle") {
                    match CircleLayer::from_members(m, id) {
                        Some(x) => Ok(Layer::Circle(x)),
                        None => Err(DocumentError::InvalidField),
                    }
                } else if str_eq(t.as_str(), "heatmap") {
                    match HeatmapLayer::from_members(m, id) {
                        Some(x) => Ok(Layer::Heatmap(x)),
                        None => Err(DocumentError::InvalidField),
                    }
                } else if str_eq(t.as_str(), "fill-extrusion") {
                    match FillExtrusionLayer::from_members(m, id) {
                        Some(x) => Ok(Layer::FillExtrusion(x)),
                        None => Err(DocumentError::InvalidField),
                    }
                } else if str_eq(t.as_str(), "raster") {
                    match RasterLayer::from_members(m, id) {
                        Some(x) => Ok(Layer::Raster(x)),
                        None => Err(DocumentError::InvalidField),
                    }
                } else if str_eq(t.as_str(), "hillshade") {
                    match HillshadeLayer::from_members(m, id) {
                        Some(x) => Ok(Layer::Hillshade(x)),
                        None => Err(DocumentError::InvalidField),
                    }
                } else if str_eq(t.as_str(), "sky") {
                    match SkyLayer::from_members(m, id) {
                        Some(x) => Ok(Layer::Sky(x)),
                        None => Err(DocumentError::InvalidField),
                    }
                } else if str_eq(t.as_str(), "slot") {
                    Ok(Layer::Slot(SlotLayer::from_members(m, id)))
                } else if str_eq(t.as_str(), "clip") {
                    match ClipLayer::from_members(m, id) {
                        Some(x) => Ok(Layer::Clip(x)),
                        None => Err(DocumentError::InvalidField),
                    }
                } else if is_other_layer_type(t.as_str()) {
                    match read_opt_string(&m, "source") {
                        Some(source) => Ok(Layer::Other { layer_type: t, id, source }),
                        None => Err(DocumentError::InvalidField),
                    }
                } else {
                    Err(DocumentError::InvalidField)
                }
            },
            _ => Err(DocumentError::NotAnObject),
        }
    }
}

/// A layer read from a style keeps the type, identifier and source written for it: its type
/// name is the `type` member, its identifier the `id` member, and a layer that draws from a
/// source draws from the one that its `source` member names.
pub proof fn law_layer_keeps_type_id_and_source(v: JsonValue, l: Layer)
    requires
        layer_ok(v),
        layer_is(v, l),
    ensures
        match v {
            JsonValue::Object(m) => {
                &&& string_field(member_of(m@, "type"@)) matches Some(t) && t@ == layer_type_name(l)
                &&& string_field(member_of(m@, "id"@)) == Some(layer_id(l))
                &&& layer_source(l) matches Some(s) ==> opt_string_field(member_of(m@, "source"@))
                    == Some(Some(s))
            },
            _ => false,
        },
{
}

} // verus!