//! What a MapLibre style becomes in Galileo: one vector tile layer per
//! vector source, with a style rule for each supported layer that draws from
//! it and a tile background.
//!
//! The functions here decide which sources and layers are used and how their
//! property values are combined; the renderer builds its own objects from the
//! plans they return.

use vstd::prelude::*;
use crate::color::{Color, MlColor};
use crate::convert::{convertible, converts_to};
use crate::expr::Expr;
use crate::json::Num;
use crate::ml_expr::MlExpr;
use crate::style::layer::{FillLayer, Layer, LineLayer, layer_source, one_num};
use crate::style::source::{Source, VectorSource};
use crate::style::value::{FunctionStop, MlStyleValue};
use crate::style::MaplibreStyle;

verus! {

/// A property value as the vector tile renderer takes it: a constant, or an exponential
/// interpolation over the zoom level between `(zoom, value)` steps.
#[derive(Debug, PartialEq)]
pub enum TileValue<T> {
    Simple(T),
    Interpolate { base: Num, steps: Vec<(Num, T)> },
}

/// `t` is the renderer value of the style value `v`: a literal is a constant, a legacy
/// function interpolates over its stops; expressions have none.
pub open spec fn tile_value_is<T>(v: MlStyleValue<T>, t: TileValue<T>) -> bool {
    match v {
        MlStyleValue::Literal(x) => t == TileValue::<T>::Simple(x),
        MlStyleValue::Function(f) => t matches TileValue::Interpolate { base, steps } && base
            == f.base && steps@.len() == f.stops@.len() && forall|i: int|
            0 <= i < steps@.len() ==> #[trigger] steps@[i] == (f.stops@[i].input, f.stops@[i].output),
        MlStyleValue::Expression(_) => false,
    }
}

/// The renderer value of a style value, where it has one: expressions have none yet.
pub fn get_galileo_value<T: Copy>(value: &MlStyleValue<T>) -> (r: Option<TileValue<T>>)
    ensures
        match r {
            Some(t) => !(*value is Expression) && tile_value_is(*value, t),
            None => *value is Expression,
        },
{
    match value {
        MlStyleValue::Literal(v) => Some(TileValue::Simple(*v)),
        MlStyleValue::Expression(_) => None,
        MlStyleValue::Function(f) => {
            let mut steps: Vec<(Num, T)> = Vec::new();
            let mut i: usize = 0;
            while i < f.stops.len()
                invariant
                    i <= f.stops@.len(),
                    steps@.len() == i,
                    forall|k: int|
                        0 <= k < i ==> #[trigger] steps@[k] == (f.stops@[k].input, f.stops@[k].output),
                decreases f.stops@.len() - i,
            {
                let stop: &FunctionStop<T> = &f.stops[i];
                steps.push((stop.input, stop.output));
                i = i + 1;
            }
            Some(TileValue::Interpolate { base: f.base, steps })
        },
    }
}

/// A color as the renderer takes it: a ready color, or a color whose alpha is set from an
/// opacity, where at most one of the two is interpolated over the zoom level.
#[derive(Debug, PartialEq)]
#[allow(inconsistent_fields)]
pub enum ColorPlan {
    /// A ready color.
    Fixed(Color),
    /// `color` with its alpha set from `opacity`.
    Simple { color: Color, opacity: Num },
    /// `color` with its alpha set from an opacity interpolated over `steps`.
    InterpolateOpacity { color: Color, base: Num, steps: Vec<(Num, Num)> },
    /// A color interpolated over `steps`, each with its alpha set from `opacity`.
    InterpolateColor { base: Num, steps: Vec<(Num, MlColor)>, opacity: Num },
}

/// The renderer value that an opacity has: its own, or a constant `1.0` where it has none.
pub open spec fn opacity_value_is(v: MlStyleValue<Num>, t: TileValue<Num>) -> bool {
    if v is Expression {
        t == TileValue::<Num>::Simple(one_num())
    } else {
        tile_value_is(v, t)
    }
}

/// Whether a color and an opacity can be combined: the color has a renderer value, and not
/// both are interpolated.
pub open spec fn color_combinable(color: MlStyleValue<MlColor>, opacity: MlStyleValue<Num>) -> bool {
    &&& !(color is Expression)
    &&& !(color is Function && opacity is Function)
}

/// `p` is the combination of the renderer values `c` of a color and `o` of an opacity.
pub open spec fn color_plan_is(c: TileValue<MlColor>, o: TileValue<Num>, p: ColorPlan) -> bool {
    match (c, o) {
        (TileValue::Simple(col), TileValue::Simple(op)) => p == ColorPlan::Simple {
            color: col.0,
            opacity: op,
        },
        (TileValue::Simple(col), TileValue::Interpolate { base, steps }) => p matches ColorPlan::InterpolateOpacity { color, base: b, steps: s }
            && color == col.0 && b == base && s@ == steps@,
        (TileValue::Interpolate { base, steps }, TileValue::Simple(op)) => p matches ColorPlan::InterpolateColor { base: b, steps: s, opacity }
            && b == base && s@ == steps@ && opacity == op,
        _ => false,
    }
}

/// `p` is the color plan of a color and an opacity style value.
pub open spec fn color_value_is(
    color: MlStyleValue<MlColor>,
    opacity: MlStyleValue<Num>,
    p: ColorPlan,
) -> bool {
    exists|c: TileValue<MlColor>, o: TileValue<Num>|
        tile_value_is(color, c) && opacity_value_is(opacity, o) && color_plan_is(c, o, p)
}

/// Combines a color and an opacity style value; `None` where the color is an expression or
/// both are interpolated, which the renderer does not support yet.
pub fn get_color_value(color: &MlStyleValue<MlColor>, opacity: &MlStyleValue<Num>) -> (r: Option<
    ColorPlan,
>)
    ensures
        match r {
            Some(p) => color_combinable(*color, *opacity) && color_value_is(*color, *opacity, p),
            None => !color_combinable(*color, *opacity),
        },
{
    let c = match get_galileo_value(color) {
        Some(c) => c,
        None => return None,
    };
    let o = match get_galileo_value(opacity) {
        Some(o) => o,
        None => TileValue::Simple(Num { bits: 0x3FF0_0000_0000_0000 }),
    };
    let ghost gc = c;
    let ghost go = o;
    match (c, o) {
        (TileValue::Simple(col), TileValue::Simple(op)) => {
            let p = ColorPlan::Simple { color: col.0, opacity: op };
            assert(color_plan_is(gc, go, p));
            Some(p)
        },
        (TileValue::Simple(col), TileValue::Interpolate { base, steps }) => {
            let p = ColorPlan::InterpolateOpacity { color: col.0, base, steps };
            assert(color_plan_is(gc, go, p));
            Some(p)
        },
        (TileValue::Interpolate { base, steps }, TileValue::Simple(op)) => {
            let p = ColorPlan::InterpolateColor { base, steps, opacity: op };
            assert(color_plan_is(gc, go, p));
            Some(p)
        },
        _ => None,
    }
}

/// What the renderer gets of a style value: a literal as that value; a legacy function as an
/// interpolation with the function's base whose `k`-th step is the function's `k`-th stop, so
/// that the steps keep the stops' order; an expression as nothing.
pub proof fn law_style_value_steps_follow_stops<T>(v: MlStyleValue<T>, t: TileValue<T>)
    requires
        tile_value_is(v, t),
    ensures
        v matches MlStyleValue::Literal(x) ==> t == TileValue::<T>::Simple(x),
        v is Function ==> (t is Interpolate && t->base == v->Function_0.base && t->steps@.len()
            == v->Function_0.stops@.len()),
        v is Function ==> forall|k: int|
            0 <= k < v->Function_0.stops@.len() ==> (#[trigger] t->steps@[k]).0 == v->Function_0.stops@[k].input
                && t->steps@[k].1 == v->Function_0.stops@[k].output,
        !(v is Expression),
{
}

/// A literal color combined with a literal opacity is that color at that opacity, and with an
/// opacity that is an expression it is that color fully opaque.
pub proof fn law_literal_color_with_opacity(c: MlColor, o: MlStyleValue<Num>, p: ColorPlan)
    requires
        color_value_is(MlStyleValue::Literal(c), o, p),
    ensures
        o matches MlStyleValue::Literal(op) ==> p == (ColorPlan::Simple { color: c.0, opacity: op }),
        o is Expression ==> p == (ColorPlan::Simple { color: c.0, opacity: one_num() }),
{
}

/// A color combined with an opacity where one of the two is a legacy function: a literal
/// color with an interpolated opacity keeps the color and takes the opacity function's base
/// and stops, in order; an interpolated color takes the color function's base and stops, in
/// order, at the literal opacity, or fully opaque where the opacity is an expression.
pub proof fn law_interpolated_color_or_opacity(
    color: MlStyleValue<MlColor>,
    opacity: MlStyleValue<Num>,
    p: ColorPlan,
)
    requires
        color_value_is(color, opacity, p),
    ensures
        color is Literal && opacity is Function ==> (p matches ColorPlan::InterpolateOpacity {
            color: pc,
            base,
            steps,
        } && pc == color->Literal_0.0 && base == opacity->Function_0.base && steps@.len()
            == opacity->Function_0.stops@.len() && forall|k: int|
            0 <= k < opacity->Function_0.stops@.len() ==> #[trigger] steps@[k] == (
                opacity->Function_0.stops@[k].input,
                opacity->Function_0.stops@[k].output,
            )),
        color matches MlStyleValue::Function(f) ==> (p matches ColorPlan::InterpolateColor {
            base,
            steps,
            opacity: po,
        } && base == f.base && steps@.len() == f.stops@.len() && (forall|k: int|
            0 <= k < f.stops@.len() ==> #[trigger] steps@[k] == (f.stops@[k].input, f.stops@[k].output))
            && (opacity matches MlStyleValue::Literal(op) ==> po == op) && (opacity is Expression
            ==> po == one_num())),
{
    let (c, o) = choose|c: TileValue<MlColor>, o: TileValue<Num>|
        tile_value_is(color, c) && opacity_value_is(opacity, o) && color_plan_is(c, o, p);
    law_style_value_steps_follow_stops(color, c);
    if !(opacity is Expression) {
        law_style_value_steps_follow_stops(opacity, o);
    }
}

/// The transparent color that tiles have where a style names no background.
pub open spec fn transparent_plan() -> ColorPlan {
    ColorPlan::Fixed(Color { r: 0, g: 0, b: 0, a: 0 })
}

/// `r` is the tile background that the background layer `l` gives.
pub open spec fn background_plan_is(l: Layer, r: ColorPlan) -> bool {
    match l {
        Layer::Background(b) => if color_combinable(
            b.paint.background_color,
            b.paint.background_opacity,
        ) {
            color_value_is(b.paint.background_color, b.paint.background_opacity, r)
        } else {
            r == transparent_plan()
        },
        _ => false,
    }
}

/// The background of tiles: the color of the first background layer among `layers`, or
/// transparent where there is none or its color cannot be combined with its opacity.
/// A background layer anywhere in the list is drawn beneath the whole tile.
pub fn get_background(layers: &Vec<&Layer>) -> (r: ColorPlan)
    ensures
        (forall|i: int| 0 <= i < layers@.len() ==> !(#[trigger] layers@[i] is Background)) ==> r
            == transparent_plan(),
        (exists|i: int| 0 <= i < layers@.len() && (#[trigger] layers@[i]) is Background) ==> exists|i: int|
            0 <= i < layers@.len() && (#[trigger] layers@[i]) is Background && (forall|j: int|
                0 <= j < i ==> !(#[trigger] layers@[j] is Background)) && background_plan_is(
                *layers@[i],
                r,
            ),
        match first_background(deref_all(layers@)) {
            Some(b) => background_plan_is(b, r),
            None => r == transparent_plan(),
        },
{
    let mut i: usize = 0;
    while i < layers.len()
        invariant
            i <= layers@.len(),
            forall|j: int| 0 <= j < i ==> !(#[trigger] layers@[j] is Background),
        decreases layers@.len() - i,
    {
        match layers[i] {
            Layer::Background(b) => {
                let r = match get_color_value(&b.paint.background_color, &b.paint.background_opacity) {
                    Some(p) => p,
                    None => ColorPlan::Fixed(Color::transparent()),
                };
                assert(layers@[i as int] matches Layer::Background(bb) && bb == *b);
                proof {
                    lemma_first_background(deref_all(layers@));
                    if let Some(fb) = first_background(deref_all(layers@)) {
                        let k = choose|k: int|
                            0 <= k < deref_all(layers@).len() && deref_all(layers@)[k] == fb
                                && (#[trigger] deref_all(layers@)[k]) is Background && forall|j: int|
                                0 <= j < k ==> !(#[trigger] deref_all(layers@)[j] is Background);
                        if k < i {
                            assert(deref_all(layers@)[k] == *layers@[k]);
                        } else if k > i {
                            assert(deref_all(layers@)[i as int] == *layers@[i as int]);
                        }
                    } else {
                        assert(deref_all(layers@)[i as int] == *layers@[i as int]);
                    }
                }
                return r;
            },
            _ => {},
        }
        i = i + 1;
    }
    proof {
        lemma_first_background(deref_all(layers@));
        if let Some(fb) = first_background(deref_all(layers@)) {
            let k = choose|k: int|
                0 <= k < deref_all(layers@).len() && deref_all(layers@)[k] == fb
                    && (#[trigger] deref_all(layers@)[k]) is Background && forall|j: int|
                    0 <= j < k ==> !(#[trigger] deref_all(layers@)[j] is Background);
            assert(deref_all(layers@)[k] == *layers@[k]);
        }
    }
    ColorPlan::Fixed(Color::transparent())
}

/// The symbol that a style rule draws.
#[derive(Debug, PartialEq)]
pub enum SymbolPlan {
    Polygon { fill_color: ColorPlan },
    Line { width: TileValue<Num>, stroke_color: ColorPlan },
}

/// A style rule of a vector tile layer: which tile layer it draws, with what symbol, at
/// which zoom levels, for which features.
#[derive(Debug, PartialEq)]
pub struct RulePlan {
    /// The layer of the tiles that the rule draws.
    pub layer_name: String,
    pub symbol: SymbolPlan,
    /// The zoom level from which the rule draws.
    pub minzoom: Option<Num>,
    /// The zoom level up to which the rule draws.
    pub maxzoom: Option<Num>,
    /// The features that the rule draws, where not all.
    pub filter: Option<Expr>,
}

/// `g` is the filter that the style filter `f` converts to: none where there is no
/// filter or it has no conversion.
pub open spec fn filter_is(f: Option<MlExpr>, g: Option<Expr>) -> bool {
    match f {
        None => g is None,
        Some(e) => if convertible(e) {
            g matches Some(x) && converts_to(e, x)
        } else {
            g is None
        },
    }
}

/// Converts a layer filter.
fn filter_of(f: &Option<MlExpr>) -> (r: Option<Expr>)
    ensures
        filter_is(*f, r),
{
    match f {
        Some(e) => e.to_galileo_expr(),
        None => None,
    }
}

/// Whether a fill layer gives a style rule: it names its source layer and its color can be
/// combined with its opacity.
pub open spec fn fill_rule_ok(fill: FillLayer) -> bool {
    &&& fill.source_layer is Some
    &&& color_combinable(fill.paint.fill_color, fill.paint.fill_opacity)
}

/// `rule` is the style rule of the fill layer `fill`.
pub open spec fn fill_rule_is(fill: FillLayer, rule: RulePlan) -> bool {
    &&& fill.source_layer == Some(rule.layer_name)
    &&& rule.symbol matches SymbolPlan::Polygon { fill_color } && color_value_is(
        fill.paint.fill_color,
        fill.paint.fill_opacity,
        fill_color,
    )
    &&& rule.minzoom == fill.minzoom
    &&& rule.maxzoom == fill.maxzoom
    &&& filter_is(fill.filter, rule.filter)
}

/// The style rule of a fill layer; `None` where the layer names no source layer or its
/// color cannot be combined with its opacity.
pub fn fill_rule(fill: &FillLayer) -> (r: Option<RulePlan>)
    ensures
        match r {
            Some(rule) => fill_rule_ok(*fill) && fill_rule_is(*fill, rule),
            None => !fill_rule_ok(*fill),
        },
{
    let source_layer = match &fill.source_layer {
        Some(l) => l.clone(),
        None => return None,
    };
    let color = match get_color_value(&fill.paint.fill_color, &fill.paint.fill_opacity) {
        Some(c) => c,
        None => return None,
    };
    let filter = filter_of(&fill.filter);
    Some(
        RulePlan {
            layer_name: source_layer,
            symbol: SymbolPlan::Polygon { fill_color: color },
            minzoom: fill.minzoom,
            maxzoom: fill.maxzoom,
            filter,
        },
    )
}

/// Whether a line layer gives a style rule: it has no dash pattern and names its source layer.
pub open spec fn line_rule_ok(line: LineLayer) -> bool {
    &&& line.paint.line_dasharray is None
    &&& line.source_layer is Some
}

/// `rule` is the style rule of the line layer `line`: a color that cannot be combined with
/// its opacity is transparent, and a width without a renderer value is `1.0`.
pub open spec fn line_rule_is(line: LineLayer, rule: RulePlan) -> bool {
    &&& line.source_layer == Some(rule.layer_name)
    &&& rule.symbol matches SymbolPlan::Line { width, stroke_color } && opacity_value_is(
        line.paint.line_width,
        width,
    ) && (if color_combinable(line.paint.line_color, line.paint.line_opacity) {
        color_value_is(line.paint.line_color, line.paint.line_opacity, stroke_color)
    } else {
        stroke_color == transparent_plan()
    })
    &&& rule.minzoom == line.minzoom
    &&& rule.maxzoom == line.maxzoom
    &&& filter_is(line.filter, rule.filter)
}

/// The style rule of a line layer; `None` where the layer has a dash pattern, which is not
/// supported yet, or names no source layer.
pub fn line_rule(line: &LineLayer) -> (r: Option<RulePlan>)
    ensures
        match r {
            Some(rule) => line_rule_ok(*line) && line_rule_is(*line, rule),
            None => !line_rule_ok(*line),
        },
{
    if line.paint.line_dasharray.is_some() {
        return None;
    }
    let source_layer = match &line.source_layer {
        Some(l) => l.clone(),
        None => return None,
    };
    let color = match get_color_value(&line.paint.line_color, &line.paint.line_opacity) {
        Some(c) => c,
        None => ColorPlan::Fixed(Color::transparent()),
    };
    let width = match get_galileo_value(&line.paint.line_width) {
        Some(w) => w,
        None => TileValue::Simple(Num { bits: 0x3FF0_0000_0000_0000 }),
    };
    let filter = filter_of(&line.filter);
    Some(
        RulePlan {
            layer_name: source_layer,
            symbol: SymbolPlan::Line { width, stroke_color: color },
            minzoom: line.minzoom,
            maxzoom: line.maxzoom,
            filter,
        },
    )
}

/// Whether a layer gives a style rule: fill and line layers do where their rules exist;
/// background layers make the tile background instead, and other layer types are not
/// supported yet.
pub open spec fn rule_ok(l: Layer) -> bool {
    match l {
        Layer::Fill(f) => fill_rule_ok(f),
        Layer::Line(x) => line_rule_ok(x),
        _ => false,
    }
}

/// `rule` is the style rule of the layer `l`.
pub open spec fn rule_is(l: Layer, rule: RulePlan) -> bool {
    match l {
        Layer::Fill(f) => fill_rule_is(f, rule),
        Layer::Line(x) => line_rule_is(x, rule),
        _ => false,
    }
}

/// The layers behind a list of layer references.
pub open spec fn deref_all(s: Seq<&Layer>) -> Seq<Layer> {
    s.map_values(|l: &Layer| *l)
}

/// The layers that give style rules, in order.
pub open spec fn rule_layers(s: Seq<Layer>) -> Seq<Layer>
    decreases s.len(),
{
    if s.len() == 0 {
        Seq::empty()
    } else {
        let sub = rule_layers(s.drop_last());
        if rule_ok(s.last()) {
            sub.push(s.last())
        } else {
            sub
        }
    }
}

/// The style rules of the layers that draw from a vector source, in layer order.
pub fn build_rules(layers: &Vec<&Layer>) -> (r: Vec<RulePlan>)
    ensures
        r@.len() == rule_layers(deref_all(layers@)).len(),
        forall|k: int|
            0 <= k < r@.len() ==> rule_is(rule_layers(deref_all(layers@))[k], #[trigger] r@[k]),
{
    let mut rules: Vec<RulePlan> = Vec::new();
    let mut i: usize = 0;
    assert(deref_all(layers@.subrange(0, 0)) =~= Seq::<Layer>::empty());
    while i < layers.len()
        invariant
            i <= layers@.len(),
            rules@.len() == rule_layers(deref_all(layers@.subrange(0, i as int))).len(),
            forall|k: int|
                0 <= k < rules@.len() ==> rule_is(
                    rule_layers(deref_all(layers@.subrange(0, i as int)))[k],
                    #[trigger] rules@[k],
                ),
        decreases layers@.len() - i,
    {
        let ghost before = deref_all(layers@.subrange(0, i as int));
        let ghost after = deref_all(layers@.subrange(0, i + 1));
        assert(after.drop_last() =~= before);
        assert(after.last() == *layers@[i as int]);
        let made = match layers[i] {
            Layer::Fill(fill) => fill_rule(fill),
            Layer::Line(line) => line_rule(line),
            _ => None,
        };
        match made {
            Some(rule) => rules.push(rule),
            None => {},
        }
        i = i + 1;
    }
    assert(layers@.subrange(0, layers@.len() as int) =~= layers@);
    rules
}

/// A vector tile layer for a vector source: its tile URL templates, its style rules and its
/// tile background.
#[derive(Debug, PartialEq)]
pub struct VectorTilePlan {
    pub tile_urls: Vec<String>,
    pub rules: Vec<RulePlan>,
    pub background: ColorPlan,
}

/// Whether a vector source gives a tile layer: it has at least one tile URL.
pub open spec fn vector_source_ok(source: VectorSource) -> bool {
    source.tiles matches Some(t) && t@.len() > 0
}

/// Plans the vector tile layer of a vector source and the style layers that draw from it;
/// `None` where the source has no tile URLs.
pub fn try_create(source: &VectorSource, layers: &Vec<&Layer>) -> (r: Option<VectorTilePlan>)
    ensures
        match r {
            Some(p) => vector_source_ok(*source) && source.tiles->Some_0@ == p.tile_urls@
                && p.rules@.len() == rule_layers(deref_all(layers@)).len() && (forall|k: int|
                0 <= k < p.rules@.len() ==> rule_is(
                    rule_layers(deref_all(layers@))[k],
                    #[trigger] p.rules@[k],
                )),
            None => !vector_source_ok(*source),
        },
{
    let tile_urls = match &source.tiles {
        Some(t) => if t.len() > 0 {
            let c = t.clone();
            assert(c@ =~= t@);
            c
        } else {
            return None;
        },
        None => return None,
    };
    let rules = build_rules(layers);
    let background = get_background(layers);
    Some(VectorTilePlan { tile_urls, rules, background })
}

/// Plans the tile layer of a source: only vector sources are supported yet.
pub fn try_create_source_layer(source: &Source, layers: &Vec<&Layer>) -> (r: Option<VectorTilePlan>)
    ensures
        match *source {
            Source::Vector(v) => match r {
                Some(p) => vector_source_ok(v) && v.tiles->Some_0@ == p.tile_urls@
                    && p.rules@.len() == rule_layers(deref_all(layers@)).len() && (forall|k: int|
                    0 <= k < p.rules@.len() ==> rule_is(
                        rule_layers(deref_all(layers@))[k],
                        #[trigger] p.rules@[k],
                    )),
                None => !vector_source_ok(v),
            },
            _ => r is None,
        },
{
    match source {
        Source::Vector(v) => try_create(v, layers),
        _ => None,
    }
}

/// Whether a name is among names.
pub open spec fn has_name(names: Seq<String>, n: Seq<char>) -> bool {
    exists|j: int| 0 <= j < names.len() && (#[trigger] names[j])@ == n
}

/// The sources that layers draw from, each once, in the order in which they first appear.
pub open spec fn source_order(layers: Seq<Layer>) -> Seq<String>
    decreases layers.len(),
{
    if layers.len() == 0 {
        Seq::empty()
    } else {
        let sub = source_order(layers.drop_last());
        match layer_source(layers.last()) {
            Some(s) => if has_name(sub, s@) {
                sub
            } else {
                sub.push(s)
            },
            None => sub,
        }
    }
}

/// The layers that draw from the source named `n`, in order.
pub open spec fn drawing_layers(layers: Seq<Layer>, n: Seq<char>) -> Seq<Layer>
    decreases layers.len(),
{
    if layers.len() == 0 {
        Seq::empty()
    } else {
        let sub = drawing_layers(layers.drop_last(), n);
        if layer_source(layers.last()) matches Some(s) && s@ == n {
            sub.push(layers.last())
        } else {
            sub
        }
    }
}

/// The first source named `n`.
pub open spec fn source_named(sources: Seq<(String, Source)>, n: Seq<char>) -> Option<Source>
    decreases sources.len(),
{
    if sources.len() == 0 {
        None
    } else if sources[0].0@ == n {
        Some(sources[0].1)
    } else {
        source_named(sources.drop_first(), n)
    }
}

/// Whether the source named `n` gives a tile layer: it exists and is a vector source with tiles.
pub open spec fn source_planned(sources: Seq<(String, Source)>, n: Seq<char>) -> bool {
    source_named(sources, n) matches Some(Source::Vector(v)) && vector_source_ok(v)
}

/// The sources, in layer order, that give tile layers.
pub open spec fn planned_sources(order: Seq<String>, sources: Seq<(String, Source)>) -> Seq<String>
    decreases order.len(),
{
    if order.len() == 0 {
        Seq::empty()
    } else {
        let sub = planned_sources(order.drop_last(), sources);
        if source_planned(sources, order.last()@) {
            sub.push(order.last())
        } else {
            sub
        }
    }
}

/// `p` is the tile layer of the source named `n` of a style.
pub open spec fn source_plan_is(style: MaplibreStyle, n: Seq<char>, p: VectorTilePlan) -> bool {
    &&& source_named(style.sources@, n) matches Some(Source::Vector(v)) && v.tiles->Some_0@
        == p.tile_urls@
    &&& p.rules@.len() == rule_layers(drawing_layers(style.layers@, n)).len()
    &&& forall|k: int|
        0 <= k < p.rules@.len() ==> rule_is(
            rule_layers(drawing_layers(style.layers@, n))[k],
            #[trigger] p.rules@[k],
        )
}

/// Whether `n` is a name among `names`.
fn contains_name(names: &Vec<String>, n: &str) -> (r: bool)
    ensures
        r == has_name(names@, n@),
{
    let mut j: usize = 0;
    while j < names.len()
        invariant
            j <= names@.len(),
            forall|k: int| 0 <= k < j ==> (#[trigger] names@[k])@ != n@,
        decreases names@.len() - j,
    {
        if crate::text::str_eq(names[j].as_str(), n) {
            return true;
        }
        j = j + 1;
    }
    false
}

/// The sources that the layers of a style draw from, each once, in first-seen order.
fn collect_source_order(layers: &Vec<Layer>) -> (r: Vec<String>)
    ensures
        r@ == source_order(layers@),
{
    let mut order: Vec<String> = Vec::new();
    let mut i: usize = 0;
    assert(layers@.subrange(0, 0) =~= Seq::<Layer>::empty());
    while i < layers.len()
        invariant
            i <= layers@.len(),
            order@ == source_order(layers@.subrange(0, i as int)),
        decreases layers@.len() - i,
    {
        let ghost after = layers@.subrange(0, i + 1);
        assert(after.drop_last() =~= layers@.subrange(0, i as int));
        match layers[i].source() {
            Some(src) => {
                if !contains_name(&order, src.as_str()) {
                    order.push(src.clone());
                }
            },
            None => {},
        }
        i = i + 1;
    }
    assert(layers@.subrange(0, layers@.len() as int) =~= layers@);
    order
}

/// The first source named `n`.
fn find_source<'a>(sources: &'a Vec<(String, Source)>, n: &str) -> (r: Option<&'a Source>)
    ensures
        match source_named(sources@, n@) {
            Some(x) => r == Some(&x),
            None => r is None,
        },
{
    let mut i: usize = 0;
    assert(sources@.subrange(0, sources@.len() as int) =~= sources@);
    while i < sources.len()
        invariant
            i <= sources@.len(),
            source_named(sources@, n@) == source_named(
                sources@.subrange(i as int, sources@.len() as int),
                n@,
            ),
        decreases sources@.len() - i,
    {
        let ghost rest = sources@.subrange(i as int, sources@.len() as int);
        assert(rest.drop_first() =~= sources@.subrange(i + 1, sources@.len() as int));
        if crate::text::str_eq(sources[i].0.as_str(), n) {
            return Some(&sources[i].1);
        }
        i = i + 1;
    }
    None
}

/// The layers of a style that draw from the source named `n`.
fn layers_drawing<'a>(layers: &'a Vec<Layer>, n: &str) -> (r: Vec<&'a Layer>)
    ensures
        deref_all(r@) == drawing_layers(layers@, n@),
{
    let mut out: Vec<&'a Layer> = Vec::new();
    let mut i: usize = 0;
    assert(layers@.subrange(0, 0) =~= Seq::<Layer>::empty());
    assert(deref_all(out@) =~= Seq::<Layer>::empty());
    while i < layers.len()
        invariant
            i <= layers@.len(),
            deref_all(out@) == drawing_layers(layers@.subrange(0, i as int), n@),
        decreases layers@.len() - i,
    {
        let ghost after = layers@.subrange(0, i + 1);
        assert(after.drop_last() =~= layers@.subrange(0, i as int));
        let ghost before_out = out@;
        match layers[i].source() {
            Some(src) => {
                if crate::text::str_eq(src.as_str(), n) {
                    out.push(&layers[i]);
                    assert(deref_all(out@) =~= deref_all(before_out).push(layers@[i as int]));
                }
            },
            None => {},
        }
        i = i + 1;
    }
    assert(layers@.subrange(0, layers@.len() as int) =~= layers@);
    out
}

/// Whether the layer `l` draws from the source named `n`.
pub open spec fn draws_from(l: Layer, n: Seq<char>) -> bool {
    layer_source(l) matches Some(s) && s@ == n
}

/// No name occurs twice among `names`.
pub open spec fn distinct_names(names: Seq<String>) -> bool {
    forall|a: int, b: int| 0 <= a < b < names.len() ==> names[a]@ != names[b]@
}

/// The sources that layers draw from are named once each, and each is drawn from by a layer.
proof fn lemma_source_order(layers: Seq<Layer>)
    ensures
        distinct_names(source_order(layers)),
        forall|k: int| #![trigger source_order(layers)[k]]
            0 <= k < source_order(layers).len() ==> exists|j: int|
                0 <= j < layers.len() && layer_source(#[trigger] layers[j]) == Some(
                    source_order(layers)[k],
                ),
    decreases layers.len(),
{
    if layers.len() > 0 {
        let init = layers.drop_last();
        lemma_source_order(init);
        let sub = source_order(init);
        assert forall|k: int| #![trigger sub[k]] 0 <= k < sub.len() implies exists|j: int|
            0 <= j < layers.len() && layer_source(#[trigger] layers[j]) == Some(sub[k]) by {
            let j = choose|j: int| 0 <= j < init.len() && layer_source(#[trigger] init[j]) == Some(sub[k]);
            assert(layers[j] == init[j]);
        }
        match layer_source(layers.last()) {
            Some(s) => {
                if !has_name(sub, s@) {
                    let o = sub.push(s);
                    assert forall|a: int, b: int| 0 <= a < b < o.len() implies o[a]@ != o[b]@ by {
                        if b == sub.len() {
                            assert(o[a] == sub[a]);
                        } else {
                            assert(o[a] == sub[a] && o[b] == sub[b]);
                        }
                    }
                    assert forall|k: int| #![trigger o[k]] 0 <= k < o.len() implies exists|j: int|
                        0 <= j < layers.len() && layer_source(#[trigger] layers[j]) == Some(o[k]) by {
                        if k < sub.len() {
                            assert(o[k] == sub[k]);
                        } else {
                            assert(layer_source(layers[layers.len() - 1]) == Some(o[k]));
                        }
                    }
                }
            },
            None => {},
        }
    }
}

/// The sources planned from an order of names are some of those names, in the same order,
/// each at most once where the order names each once.
proof fn lemma_planned_sources(order: Seq<String>, sources: Seq<(String, Source)>)
    ensures
        planned_sources(order, sources).len() <= order.len(),
        forall|k: int| 0 <= k < planned_sources(order, sources).len() ==> has_name(
            order,
            (#[trigger] planned_sources(order, sources)[k])@,
        ),
        distinct_names(order) ==> distinct_names(planned_sources(order, sources)),
    decreases order.len(),
{
    if order.len() > 0 {
        let init = order.drop_last();
        lemma_planned_sources(init, sources);
        let sub = planned_sources(init, sources);
        assert forall|k: int| 0 <= k < sub.len() implies has_name(order, (#[trigger] sub[k])@) by {
            let j = choose|j: int| 0 <= j < init.len() && (#[trigger] init[j])@ == sub[k]@;
            assert(order[j] == init[j]);
        }
        if source_planned(sources, order.last()@) {
            let p = sub.push(order.last());
            assert forall|k: int| 0 <= k < p.len() implies has_name(order, (#[trigger] p[k])@) by {
                if k < sub.len() {
                    assert(p[k] == sub[k]);
                } else {
                    assert(order[order.len() - 1]@ == p[k]@);
                }
            }
            if distinct_names(order) {
                assert forall|a: int, b: int| 0 <= a < b < p.len() implies p[a]@ != p[b]@ by {
                    if b == sub.len() {
                        assert(p[a] == sub[a]);
                        let j = choose|j: int| 0 <= j < init.len() && (#[trigger] init[j])@ == sub[a]@;
                        assert(order[j] == init[j]);
                    } else {
                        assert(p[a] == sub[a] && p[b] == sub[b]);
                    }
                }
            }
        }
    }
}

/// The tile layers of a style come one for each source that its layers draw from, at most:
/// no source is planned twice, and each planned source is drawn from by some layer.
pub proof fn law_inner_layers_one_per_source(style: MaplibreStyle)
    ensures
        distinct_names(source_order(style.layers@)),
        planned_sources(source_order(style.layers@), style.sources@).len() <= source_order(
            style.layers@,
        ).len(),
        distinct_names(planned_sources(source_order(style.layers@), style.sources@)),
        forall|k: int|
            #![trigger planned_sources(source_order(style.layers@), style.sources@)[k]]
            0 <= k < planned_sources(source_order(style.layers@), style.sources@).len()
                ==> exists|j: int|
                0 <= j < style.layers@.len() && draws_from(
                    #[trigger] style.layers@[j],
                    planned_sources(source_order(style.layers@), style.sources@)[k]@,
                ),
{
    let order = source_order(style.layers@);
    lemma_source_order(style.layers@);
    lemma_planned_sources(order, style.sources@);
    let planned = planned_sources(order, style.sources@);
    assert forall|k: int| #![trigger planned[k]] 0 <= k < planned.len() implies exists|j: int|
        0 <= j < style.layers@.len() && draws_from(#[trigger] style.layers@[j], planned[k]@) by {
        assert(has_name(order, planned[k]@));
        let i = choose|i: int| 0 <= i < order.len() && (#[trigger] order[i])@ == planned[k]@;
        let j = choose|j: int|
            0 <= j < style.layers@.len() && layer_source(#[trigger] style.layers@[j]) == Some(order[i]);
        assert(draws_from(style.layers@[j], planned[k]@));
    }
}

/// The position of the first of `layers` that draws from the source named `n`, or -1 where
/// none does.
pub open spec fn first_use(layers: Seq<Layer>, n: Seq<char>) -> int
    decreases layers.len(),
{
    if layers.len() == 0 {
        -1
    } else {
        let f = first_use(layers.drop_last(), n);
        if f >= 0 {
            f
        } else if draws_from(layers.last(), n) {
            layers.len() - 1
        } else {
            -1
        }
    }
}

/// Where the first layer drawing from a source stands: before the end, drawing from it, and
/// after no other that does.
proof fn lemma_first_use(layers: Seq<Layer>, n: Seq<char>)
    ensures
        first_use(layers, n) < layers.len(),
        first_use(layers, n) >= 0 ==> draws_from(layers[first_use(layers, n)], n),
        forall|j: int| 0 <= j < layers.len() && j < first_use(layers, n) ==> !draws_from(#[trigger] layers[j], n),
        first_use(layers, n) < 0 ==> forall|j: int| 0 <= j < layers.len() ==> !draws_from(#[trigger] layers[j], n),
    decreases layers.len(),
{
    if layers.len() > 0 {
        let init = layers.drop_last();
        lemma_first_use(init, n);
        assert(layers.last() == layers[layers.len() - 1]);
        assert forall|j: int| 0 <= j < layers.len() && j < first_use(layers, n) implies !draws_from(#[trigger] layers[j], n) by {
            assert(init[j] == layers[j]);
        }
        if first_use(layers, n) < 0 {
            assert forall|j: int| 0 <= j < layers.len() implies !draws_from(#[trigger] layers[j], n) by {
                if j < init.len() {
                    assert(init[j] == layers[j]);
                }
            }
        } else if first_use(init, n) >= 0 {
            assert(init[first_use(init, n)] == layers[first_use(init, n)]);
        }
    }
}

/// The sources that layers draw from come in the order in which layers first use them: each
/// is first used somewhere, an earlier one is first used earlier, and every source that a
/// layer draws from is among them.
pub proof fn law_sources_in_order_of_first_use(layers: Seq<Layer>)
    ensures
        forall|k: int|
            0 <= k < source_order(layers).len() ==> first_use(layers, (#[trigger] source_order(layers)[k])@) >= 0,
        forall|a: int, b: int|
            0 <= a < b < source_order(layers).len() ==> first_use(layers, (#[trigger] source_order(layers)[a])@)
                < first_use(layers, (#[trigger] source_order(layers)[b])@),
        forall|i: int|
            0 <= i < layers.len() && (#[trigger] layer_source(layers[i])) is Some ==> has_name(
                source_order(layers),
                layer_source(layers[i])->Some_0@,
            ),
    decreases layers.len(),
{
    if layers.len() > 0 {
        let init = layers.drop_last();
        let sub = source_order(init);
        law_sources_in_order_of_first_use(init);
        lemma_source_order(init);
        assert forall|j: int| 0 <= j < init.len() implies #[trigger] init[j] == layers[j] by {}
        // A name already used keeps its first use; a new one is first used by the last layer.
        assert forall|k: int| 0 <= k < sub.len() implies first_use(layers, (#[trigger] sub[k])@)
            == first_use(init, sub[k]@) by {
            lemma_first_use(init, sub[k]@);
        }
        let order = source_order(layers);
        match layer_source(layers.last()) {
            Some(s) => {
                if !has_name(sub, s@) {
                    assert(first_use(init, s@) < 0) by {
                        lemma_first_use(init, s@);
                        if first_use(init, s@) >= 0 {
                            let j = first_use(init, s@);
                            assert(draws_from(init[j], s@));
                            let t = layer_source(init[j])->Some_0;
                            assert(has_name(sub, t@));
                        }
                    }
                    assert(draws_from(layers.last(), s@));
                    assert(first_use(layers, s@) == layers.len() - 1);
                    assert forall|k: int| 0 <= k < sub.len() implies first_use(init, (#[trigger] sub[k])@) < init.len() by {
                        lemma_first_use(init, sub[k]@);
                    }
                    assert forall|k: int| 0 <= k < order.len() implies first_use(layers, (#[trigger] order[k])@) >= 0 by {
                        if k < sub.len() {
                            assert(order[k] == sub[k]);
                        }
                    }
                    assert forall|a: int, b: int|
                        0 <= a < b < order.len() implies first_use(layers, (#[trigger] order[a])@)
                            < first_use(layers, (#[trigger] order[b])@) by {
                        assert(order[a] == sub[a]);
                        if b < sub.len() {
                            assert(order[b] == sub[b]);
                        } else {
                            assert(first_use(init, sub[a]@) < init.len());
                        }
                    }
                    assert forall|i: int|
                        0 <= i < layers.len() && (#[trigger] layer_source(layers[i])) is Some implies has_name(
                            order,
                            layer_source(layers[i])->Some_0@,
                        ) by {
                        if i < init.len() {
                            let t = layer_source(layers[i])->Some_0;
                            assert(layer_source(init[i]) is Some);
                            let j = choose|j: int| 0 <= j < sub.len() && (#[trigger] sub[j])@ == t@;
                            assert(order[j] == sub[j]);
                        } else {
                            assert(order[sub.len() as int] == s);
                        }
                    }
                } else {
                    assert forall|i: int|
                        0 <= i < layers.len() && (#[trigger] layer_source(layers[i])) is Some implies has_name(
                            order,
                            layer_source(layers[i])->Some_0@,
                        ) by {
                        if i < init.len() {
                            assert(layer_source(init[i]) is Some);
                        }
                    }
                }
            },
            None => {
                assert forall|i: int|
                    0 <= i < layers.len() && (#[trigger] layer_source(layers[i])) is Some implies has_name(
                        order,
                        layer_source(layers[i])->Some_0@,
                    ) by {
                    if i < init.len() {
                        assert(layer_source(init[i]) is Some);
                    }
                }
            },
        }
    }
}

/// The layers that give style rules are the layers, in order, that pass `rule_ok`: no other
/// layer adds a rule, and there are no more of them than layers.
pub proof fn law_rules_filter_layers(s: Seq<Layer>)
    ensures
        rule_layers(s) == s.filter(|l: Layer| rule_ok(l)),
        rule_layers(s).len() <= s.len(),
        forall|k: int| 0 <= k < rule_layers(s).len() ==> rule_ok(#[trigger] rule_layers(s)[k]),
        forall|i: int| 0 <= i < s.len() && rule_ok(#[trigger] s[i]) ==> rule_layers(s).contains(s[i]),
    decreases s.len(),
{
    let pred = |l: Layer| rule_ok(l);
    lemma_rule_layers_filter(s, pred);
    broadcast use vstd::seq_lib::group_filter_ensures;
    assert forall|i: int| 0 <= i < s.len() && rule_ok(#[trigger] s[i]) implies rule_layers(s).contains(s[i]) by {
        assert(s.contains(s[i]));
        assert(pred(s[i]));
    }
    assert forall|k: int| 0 <= k < rule_layers(s).len() implies rule_ok(#[trigger] rule_layers(s)[k]) by {
        assert(pred(s.filter(pred)[k]));
    }
}

/// The layers that give style rules are those that the predicate `rule_ok` keeps.
proof fn lemma_rule_layers_filter(s: Seq<Layer>, pred: spec_fn(Layer) -> bool)
    requires
        forall|l: Layer| #[trigger] pred(l) == rule_ok(l),
    ensures
        rule_layers(s) == s.filter(pred),
    decreases s.len(),
{
    reveal(Seq::filter);
    if s.len() > 0 {
        lemma_rule_layers_filter(s.drop_last(), pred);
        assert(pred(s.last()) == rule_ok(s.last()));
    }
}

/// The conditions and fallbacks of the style rules: a fill layer gives a rule exactly when it
/// names a source layer and its color combines with its opacity, with no transparent fallback;
/// a line layer gives one exactly when it has no dash pattern and names a source layer, and
/// its rule then draws a width of 1 where the width has no renderer value and a transparent
/// stroke where its color does not combine with its opacity. Both keep the layer's zoom range.
pub proof fn law_rule_conditions_and_fallbacks(fill: FillLayer, line: LineLayer, fr: RulePlan, lr: RulePlan)
    ensures
        fill_rule_ok(fill) == (fill.source_layer is Some && color_combinable(
            fill.paint.fill_color,
            fill.paint.fill_opacity,
        )),
        fill_rule_is(fill, fr) ==> Some(fr.layer_name) == fill.source_layer && fr.minzoom
            == fill.minzoom && fr.maxzoom == fill.maxzoom && fr.symbol is Polygon,
        line_rule_ok(line) == (line.paint.line_dasharray is None && line.source_layer is Some),
        line_rule_is(line, lr) ==> Some(lr.layer_name) == line.source_layer && lr.minzoom
            == line.minzoom && lr.maxzoom == line.maxzoom && lr.symbol is Line,
        line_rule_is(line, lr) && line.paint.line_width is Expression ==> lr.symbol->Line_width
            == TileValue::<Num>::Simple(one_num()),
        line_rule_is(line, lr) && !color_combinable(line.paint.line_color, line.paint.line_opacity)
            ==> lr.symbol->Line_stroke_color == transparent_plan(),
{
}

/// The first background layer among `layers`, where there is one.
pub open spec fn first_background(layers: Seq<Layer>) -> Option<Layer>
    decreases layers.len(),
{
    if layers.len() == 0 {
        None
    } else if layers[0] is Background {
        Some(layers[0])
    } else {
        first_background(layers.drop_first())
    }
}

/// The first background layer stands at the first position holding one.
proof fn lemma_first_background(layers: Seq<Layer>)
    ensures
        match first_background(layers) {
            Some(b) => exists|i: int|
                0 <= i < layers.len() && layers[i] == b && (#[trigger] layers[i]) is Background && forall|j: int|
                    0 <= j < i ==> !(#[trigger] layers[j] is Background),
            None => forall|i: int| 0 <= i < layers.len() ==> !(#[trigger] layers[i] is Background),
        },
    decreases layers.len(),
{
    if layers.len() > 0 && !(layers[0] is Background) {
        let t = layers.drop_first();
        lemma_first_background(t);
        assert forall|j: int| 0 <= j < t.len() implies #[trigger] t[j] == layers[j + 1] by {}
        match first_background(t) {
            Some(b) => {
                let i = choose|i: int|
                    0 <= i < t.len() && t[i] == b && (#[trigger] t[i]) is Background && forall|j: int|
                        0 <= j < i ==> !(#[trigger] t[j] is Background);
                assert(layers[i + 1] == b);
                assert forall|j: int| 0 <= j < i + 1 implies !(#[trigger] layers[j] is Background) by {
                    if j > 0 {
                        assert(layers[j] == t[j - 1]);
                    }
                }
            },
            None => {
                assert forall|i: int| 0 <= i < layers.len() implies !(#[trigger] layers[i] is Background) by {
                    if i > 0 {
                        assert(layers[i] == t[i - 1]);
                    }
                }
            },
        }
    }
}

/// Layers after a background layer never change the tile background: appending layers to a
/// list that holds a background layer keeps its first background layer.
pub proof fn law_later_layers_keep_background(layers: Seq<Layer>, more: Seq<Layer>)
    requires
        exists|i: int| 0 <= i < layers.len() && (#[trigger] layers[i]) is Background,
    ensures
        first_background(layers + more) == first_background(layers),
    decreases layers.len(),
{
    if !(layers[0] is Background) {
        let i = choose|i: int| 0 <= i < layers.len() && (#[trigger] layers[i]) is Background;
        assert(i > 0);
        assert(layers.drop_first()[i - 1] == layers[i]);
        law_later_layers_keep_background(layers.drop_first(), more);
        assert((layers + more).drop_first() =~= layers.drop_first() + more);
    }
    assert((layers + more)[0] == layers[0]);
}

/// Plans the tile layers of a style: one for each vector source with tiles that its layers
/// draw from, in the order in which the layers first use the sources. Sources that are not
/// defined, or are of another type, are skipped.
pub fn build_inner_layers(style: &MaplibreStyle) -> (r: Vec<(String, VectorTilePlan)>)
    ensures
        r@.len() == planned_sources(source_order(style.layers@), style.sources@).len(),
        forall|k: int|
            0 <= k < r@.len() ==> (#[trigger] r@[k]).0 == planned_sources(
                source_order(style.layers@),
                style.sources@,
            )[k] && source_plan_is(*style, r@[k].0@, r@[k].1),
{
    let order = collect_source_order(&style.layers);
    let ghost ord = order@;
    let mut out: Vec<(String, VectorTilePlan)> = Vec::new();
    let mut i: usize = 0;
    assert(order@.subrange(0, 0) =~= Seq::<String>::empty());
    while i < order.len()
        invariant
            order@ == source_order(style.layers@),
            i <= order@.len(),
            out@.len() == planned_sources(order@.subrange(0, i as int), style.sources@).len(),
            forall|k: int|
                0 <= k < out@.len() ==> (#[trigger] out@[k]).0 == planned_sources(
                    order@.subrange(0, i as int),
                    style.sources@,
                )[k] && source_plan_is(*style, out@[k].0@, out@[k].1),
        decreases order@.len() - i,
    {
        let ghost after = order@.subrange(0, i + 1);
        assert(after.drop_last() =~= order@.subrange(0, i as int));
        let name = &order[i];
        match find_source(&style.sources, name.as_str()) {
            Some(source) => {
                let layers = layers_drawing(&style.layers, name.as_str());
                match try_create_source_layer(source, &layers) {
                    Some(p) => {
                        out.push((name.clone(), p));
                    },
                    None => {},
                }
            },
            None => {},
        }
        i = i + 1;
    }
    assert(order@.subrange(0, order@.len() as int) =~= order@);
    out
}

} // verus!
