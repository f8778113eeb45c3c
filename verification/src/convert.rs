//! Conversion of MapLibre expressions into Galileo expressions.
//!
//! Only the part of the MapLibre expression language that Galileo can
//! evaluate is converted: literals, `all`, comparisons of a property with a
//! value, `has`/`!has`, `in`/`!in`, `interpolate`, `zoom`, `get` and `match`.
//! Everything else has no conversion.

use vstd::prelude::*;
use crate::color::{Color, css_color, parse_css_color};
use crate::expr::{
    ControlPoint, CubicBezierInterpolation, ExponentialInterpolation, Expr, ExprValue,
    LinearInterpolation, MatchCase, MatchExpr,
};
use crate::json::{JsonValue, Num};
use crate::ml_expr::{Interpolation, MlExpr};
use crate::text::str_eq;

verus! {

/// The property that a comparison, `has` or `in` reads: its first argument, where that is
/// a literal string other than `$type`.
pub open spec fn prop_name(p: MlExpr) -> Option<String> {
    match p {
        MlExpr::Literal(JsonValue::String(name)) => if name@ == "$type"@ {
            None
        } else {
            Some(name)
        },
        _ => None,
    }
}

/// A string literal is a color where it parses as a CSS color, and a string otherwise.
pub open spec fn string_value(s: String) -> ExprValue {
    match css_color(s@) {
        Some(c) => ExprValue::Color(c),
        None => ExprValue::String(s),
    }
}

/// The value of a literal JSON argument: booleans, numbers, strings and `null` have one.
pub open spec fn literal_of(l: JsonValue) -> Option<ExprValue> {
    match l {
        JsonValue::Bool(b) => Some(ExprValue::Boolean(b)),
        JsonValue::Number(n) => Some(ExprValue::Number(n.value)),
        JsonValue::String(s) => Some(string_value(s)),
        JsonValue::Null => Some(ExprValue::Null),
        _ => None,
    }
}

/// The labels of a `match` branch: the elements of an array, or the single value.
pub open spec fn label_entries(l: JsonValue) -> Seq<JsonValue> {
    match l {
        JsonValue::Array(es) => es@,
        v => seq![v],
    }
}

/// Every label of a `match` branch has a literal value.
pub open spec fn labels_convertible(l: JsonValue) -> bool {
    forall|k: int| 0 <= k < label_entries(l).len() ==> (#[trigger] literal_of(label_entries(l)[k])) is Some
}

/// `vs` are the values of the labels of a `match` branch, in order.
pub open spec fn labels_are(l: JsonValue, vs: Seq<ExprValue>) -> bool {
    &&& vs.len() == label_entries(l).len()
    &&& forall|k: int|
        0 <= k < vs.len() ==> literal_of(#[trigger] label_entries(l)[k]) == Some(vs[k])
}

/// Whether a MapLibre expression has a Galileo counterpart.
pub open spec fn convertible(e: MlExpr) -> bool
    decreases e,
{
    match e {
        MlExpr::Literal(l) => literal_of(l) is Some,
        MlExpr::All(parts) => forall|i: int|
            0 <= i < parts@.len() ==> convertible(#[trigger] parts@[i]),
        MlExpr::Eq(p, v) => prop_name(*p) is Some && convertible(*v),
        MlExpr::Ne(p, v) => prop_name(*p) is Some && convertible(*v),
        MlExpr::Gt(p, v) => prop_name(*p) is Some && convertible(*v),
        MlExpr::Gte(p, v) => prop_name(*p) is Some && convertible(*v),
        MlExpr::Lt(p, v) => prop_name(*p) is Some && convertible(*v),
        MlExpr::Lte(p, v) => prop_name(*p) is Some && convertible(*v),
        MlExpr::Has { property, .. } => prop_name(*property) is Some,
        MlExpr::NotHas { property, .. } => prop_name(*property) is Some,
        MlExpr::In { item, array } => prop_name(*item) is Some && forall|i: int|
            0 <= i < array@.len() ==> convertible(#[trigger] array@[i]),
        MlExpr::NotIn { item, array } => prop_name(*item) is Some && forall|i: int|
            0 <= i < array@.len() ==> convertible(#[trigger] array@[i]),
        MlExpr::Interpolate { input, stops, .. } => convertible(*input) && forall|i: int|
            0 <= i < stops@.len() ==> convertible(#[trigger] stops@[i].1),
        MlExpr::Zoom => true,
        MlExpr::Get { object, .. } => object is None,
        MlExpr::Match { input, branches, fallback } => {
            &&& convertible(*input)
            &&& convertible(*fallback)
            &&& forall|i: int|
                0 <= i < branches@.len() ==> labels_convertible(#[trigger] branches@[i].0)
                    && convertible(*branches@[i].1)
        },
        _ => false,
    }
}

/// `g` is the Galileo counterpart of the MapLibre expression `e`.
pub open spec fn converts_to(e: MlExpr, g: Expr) -> bool
    decreases e, 1nat,
{
    match e {
        MlExpr::Literal(l) => literal_of(l) matches Some(v) && g == Expr::Value(v),
        MlExpr::All(parts) => g matches Expr::All(gs) && gs@.len() == parts@.len() && forall|i: int|
            0 <= i < parts@.len() ==> converts_to(#[trigger] parts@[i], gs@[i]),
        MlExpr::Eq(p, v) => g matches Expr::Eq(a, b) && prop_name(*p) matches Some(n) && *a
            == Expr::Get(n) && converts_to(*v, *b),
        MlExpr::Ne(p, v) => g matches Expr::Ne(a, b) && prop_name(*p) matches Some(n) && *a
            == Expr::Get(n) && converts_to(*v, *b),
        MlExpr::Gt(p, v) => g matches Expr::Gt(a, b) && prop_name(*p) matches Some(n) && *a
            == Expr::Get(n) && converts_to(*v, *b),
        MlExpr::Gte(p, v) => g matches Expr::Gte(a, b) && prop_name(*p) matches Some(n) && *a
            == Expr::Get(n) && converts_to(*v, *b),
        MlExpr::Lt(p, v) => g matches Expr::Lt(a, b) && prop_name(*p) matches Some(n) && *a
            == Expr::Get(n) && converts_to(*v, *b),
        MlExpr::Lte(p, v) => g matches Expr::Lte(a, b) && prop_name(*p) matches Some(n) && *a
            == Expr::Get(n) && converts_to(*v, *b),
        MlExpr::Has { property, .. } => prop_name(*property) matches Some(n) && g == Expr::Ne(
            Box::new(Expr::Get(n)),
            Box::new(Expr::Value(ExprValue::Null)),
        ),
        MlExpr::NotHas { property, .. } => prop_name(*property) matches Some(n) && g == Expr::Eq(
            Box::new(Expr::Get(n)),
            Box::new(Expr::Value(ExprValue::Null)),
        ),
        MlExpr::In { item, array } => {
            &&& prop_name(*item) matches Some(n)
            &&& g matches Expr::In { needle, haystack }
            &&& *needle == Expr::Get(n)
            &&& haystack@.len() == array@.len()
            &&& forall|i: int| 0 <= i < array@.len() ==> converts_to(#[trigger] array@[i], haystack@[i])
        },
        MlExpr::NotIn { item, array } => {
            &&& prop_name(*item) matches Some(n)
            &&& g matches Expr::Not(inner)
            &&& *inner matches Expr::In { needle, haystack }
            &&& *needle == Expr::Get(n)
            &&& haystack@.len() == array@.len()
            &&& forall|i: int| 0 <= i < array@.len() ==> converts_to(#[trigger] array@[i], haystack@[i])
        },
        MlExpr::Interpolate { interpolation, input, stops } => match interpolation {
            Interpolation::Linear => g matches Expr::Linear(li) && converts_to(*input, li.input)
                && (forall|k: int|
                0 <= k < stops@.len() ==> (#[trigger] li.control_points@[k]).input == Expr::Value(
                    ExprValue::Number(stops@[k].0),
                ) && converts_to(stops@[k].1, li.control_points@[k].output)) && li.control_points@.len() == stops@.len(),
            Interpolation::Exponential { base } => g matches Expr::Exponential(ei) && ei.base
                == base && converts_to(*input, ei.input) && (forall|k: int|
                0 <= k < stops@.len() ==> (#[trigger] ei.control_points@[k]).input == Expr::Value(
                    ExprValue::Number(stops@[k].0),
                ) && converts_to(stops@[k].1, ei.control_points@[k].output)) && ei.control_points@.len() == stops@.len(),
            Interpolation::CubicBezier { x1, y1, x2, y2 } => g matches Expr::CubicBezier(ci)
                && ci.curve_params@ == seq![x1, y1, x2, y2] && converts_to(*input, ci.input)
                && (forall|k: int|
                0 <= k < stops@.len() ==> (#[trigger] ci.control_points@[k]).input == Expr::Value(
                    ExprValue::Number(stops@[k].0),
                ) && converts_to(stops@[k].1, ci.control_points@[k].output)) && ci.control_points@.len() == stops@.len(),
        },
        MlExpr::Zoom => g == Expr::Zoom,
        MlExpr::Get { property, object } => object is None && g == Expr::Get(property),
        MlExpr::Match { input, branches, fallback } => {
            &&& g matches Expr::Match(m)
            &&& converts_to(*input, m.input)
            &&& converts_to(*fallback, m.fallback)
            &&& m.cases@.len() == branches@.len()
            &&& forall|i: int|
                0 <= i < branches@.len() ==> labels_are(
                    (#[trigger] branches@[i]).0,
                    m.cases@[i].in_values@,
                ) && converts_to(*branches@[i].1, m.cases@[i].out)
        },
        _ => false,
    }
}

/// The value of a string literal given what the CSS color parser read of it.
pub fn color_or_string(s: String, color: Option<Color>) -> (v: ExprValue)
    ensures
        v == (match color {
            Some(c) => ExprValue::Color(c),
            None => ExprValue::String(s),
        }),
{
    match color {
        Some(c) => ExprValue::Color(c),
        None => ExprValue::String(s),
    }
}

/// The value of a literal JSON argument.
pub fn literal_value(l: &JsonValue) -> (r: Option<ExprValue>)
    ensures
        r == literal_of(*l),
{
    match l {
        JsonValue::Bool(b) => Some(ExprValue::Boolean(*b)),
        JsonValue::Number(n) => Some(ExprValue::Number(n.value)),
        JsonValue::String(s) => {
            let c = parse_css_color(s.as_str());
            Some(color_or_string(s.clone(), c))
        },
        JsonValue::Null => Some(ExprValue::Null),
        _ => None,
    }
}

/// The Galileo expression that reads the property named by `p`.
fn property_expr(p: &MlExpr) -> (r: Option<Expr>)
    ensures
        r == (match prop_name(*p) {
            Some(n) => Some(Expr::Get(n)),
            None => None::<Expr>,
        }),
{
    match p {
        MlExpr::Literal(JsonValue::String(name)) => {
            proof {
                reveal_strlit("$type");
            }
            if str_eq(name.as_str(), "$type") {
                None
            } else {
                Some(Expr::Get(name.clone()))
            }
        },
        _ => None,
    }
}

/// The values of the labels of a `match` branch.
fn label_values(l: &JsonValue) -> (r: Option<Vec<ExprValue>>)
    ensures
        match r {
            Some(vs) => labels_convertible(*l) && labels_are(*l, vs@),
            None => !labels_convertible(*l),
        },
{
    match l {
        JsonValue::Array(es) => {
            let mut out: Vec<ExprValue> = Vec::new();
            let mut i: usize = 0;
            while i < es.len()
                invariant
                    *l == JsonValue::Array(*es),
                    i <= es@.len(),
                    out@.len() == i,
                    forall|k: int| 0 <= k < i ==> literal_of(#[trigger] es@[k]) == Some(out@[k]),
                decreases es@.len() - i,
            {
                match literal_value(&es[i]) {
                    Some(v) => out.push(v),
                    None => {
                        assert(literal_of(label_entries(*l)[i as int]) is None);
                        return None;
                    },
                }
                i = i + 1;
            }
            assert(labels_are(*l, out@));
            Some(out)
        },
        v => match literal_value(v) {
            Some(x) => {
                let out = vec![x];
                assert(labels_are(*l, out@));
                Some(out)
            },
            None => {
                assert(literal_of(label_entries(*l)[0]) is None);
                None
            },
        },
    }
}

/// An `all` converts exactly when each of its parts converts, and then to an `all` of the
/// parts' conversions, part by part and in order.
pub proof fn law_all_converts_part_by_part(e: MlExpr, g: Expr)
    requires
        e is All,
    ensures
        convertible(e) == forall|i: int|
            0 <= i < e->All_0@.len() ==> convertible(#[trigger] e->All_0@[i]),
        converts_to(e, g) == (g matches Expr::All(gs) && gs@.len() == e->All_0@.len() && forall|i: int|
            0 <= i < e->All_0@.len() ==> converts_to(#[trigger] e->All_0@[i], gs@[i])),
{
}

/// A `!in` converts exactly when the `in` with the same arguments does, and then to the
/// negation of that membership test.
pub proof fn law_not_in_negates_in(not_in: MlExpr, is_in: MlExpr, g: Expr)
    requires
        not_in is NotIn,
        is_in is In,
        not_in->NotIn_item == is_in->In_item,
        not_in->NotIn_array == is_in->In_array,
    ensures
        convertible(not_in) == convertible(is_in),
        converts_to(not_in, Expr::Not(Box::new(g))) == converts_to(is_in, g),
{
}

/// A literal converts to the value it writes: a boolean to that boolean, a number to that
/// number, `null` to null, a string to the color it names where it is a CSS color and to
/// itself otherwise, and an array or object to nothing.
pub proof fn law_literals_convert_to_their_value(e: MlExpr, g: Expr)
    requires
        e is Literal,
    ensures
        e->Literal_0 matches JsonValue::Bool(b) ==> (converts_to(e, g) == (g == Expr::Value(
            ExprValue::Boolean(b),
        ))),
        e->Literal_0 matches JsonValue::Number(n) ==> (converts_to(e, g) == (g == Expr::Value(
            ExprValue::Number(n.value),
        ))),
        e->Literal_0 is Null ==> (converts_to(e, g) == (g == Expr::Value(ExprValue::Null))),
        e->Literal_0 matches JsonValue::String(s) ==> (converts_to(e, g) == (g == Expr::Value(
            match css_color(s@) {
                Some(c) => ExprValue::Color(c),
                None => ExprValue::String(s),
            },
        ))),
        e->Literal_0 is Array || e->Literal_0 is Object ==> !convertible(e),
{
}

/// An interpolation converts to the renderer's interpolation of the same kind, over the
/// conversion of its input, with one control point per stop, the `k`-th at the `k`-th stop's
/// input and with the conversion of the `k`-th stop's output: linear
/// to linear, exponential to exponential with the same base, and a Bézier curve to a Bézier
/// curve with the parameters `x1, y1, x2, y2` in that order.
pub proof fn law_interpolations_keep_kind_and_stops(e: MlExpr, g: Expr)
    requires
        e is Interpolate,
        converts_to(e, g),
    ensures
        e->Interpolate_interpolation is Linear ==> g is Linear,
        e->Interpolate_interpolation matches Interpolation::Exponential { base } ==> (g is Exponential
            && g->Exponential_0.base == base),
        e->Interpolate_interpolation matches Interpolation::CubicBezier { x1, y1, x2, y2 } ==> (g is CubicBezier
            && g->CubicBezier_0.curve_params@ == seq![x1, y1, x2, y2]),
        g is Linear ==> (converts_to(*e->Interpolate_input, g->Linear_0.input)
            && g->Linear_0.control_points@.len() == e->Interpolate_stops@.len() && forall|k: int|
            0 <= k < e->Interpolate_stops@.len() ==> (#[trigger] g->Linear_0.control_points@[k]).input
                == Expr::Value(ExprValue::Number(e->Interpolate_stops@[k].0)) && converts_to(
                e->Interpolate_stops@[k].1,
                g->Linear_0.control_points@[k].output,
            )),
        g is Exponential ==> (converts_to(*e->Interpolate_input, g->Exponential_0.input)
            && g->Exponential_0.control_points@.len() == e->Interpolate_stops@.len() && forall|k: int|
            0 <= k < e->Interpolate_stops@.len() ==> (#[trigger] g->Exponential_0.control_points@[k]).input
                == Expr::Value(ExprValue::Number(e->Interpolate_stops@[k].0)) && converts_to(
                e->Interpolate_stops@[k].1,
                g->Exponential_0.control_points@[k].output,
            )),
        g is CubicBezier ==> (converts_to(*e->Interpolate_input, g->CubicBezier_0.input)
            && g->CubicBezier_0.control_points@.len() == e->Interpolate_stops@.len() && forall|k: int|
            0 <= k < e->Interpolate_stops@.len() ==> (#[trigger] g->CubicBezier_0.control_points@[k]).input
                == Expr::Value(ExprValue::Number(e->Interpolate_stops@[k].0)) && converts_to(
                e->Interpolate_stops@[k].1,
                g->CubicBezier_0.control_points@[k].output,
            )),
{
}

/// `has` on a property tests that the property is not `null`, and `!has` on the same property
/// tests that it is: the two filters select complementary features.
pub proof fn law_has_and_not_has_are_complementary(has: MlExpr, not_has: MlExpr, p: String, g: Expr)
    requires
        has is Has,
        not_has is NotHas,
        *has->Has_property == MlExpr::Literal(JsonValue::String(p)),
        *not_has->NotHas_property == MlExpr::Literal(JsonValue::String(p)),
        p@ != "$type"@,
    ensures
        convertible(has),
        convertible(not_has),
        converts_to(has, g) == (g == Expr::Ne(
            Box::new(Expr::Get(p)),
            Box::new(Expr::Value(ExprValue::Null)),
        )),
        converts_to(not_has, g) == (g == Expr::Eq(
            Box::new(Expr::Get(p)),
            Box::new(Expr::Value(ExprValue::Null)),
        )),
{
}

/// A comparison of a property with a value converts to the same comparison, of the
/// property's value (read by name) with the value's conversion: `==` to equality, `!=` to
/// inequality, `>`, `>=`, `<` and `<=` to the same order.
pub proof fn law_comparisons_keep_their_operator(e: MlExpr, p: String, g: Expr)
    requires
        converts_to(e, g),
    ensures
        e is Eq && *e->Eq_0 == MlExpr::Literal(JsonValue::String(p)) ==> (g is Eq && *g->Eq_0
            == Expr::Get(p) && converts_to(*e->Eq_1, *g->Eq_1)),
        e is Ne && *e->Ne_0 == MlExpr::Literal(JsonValue::String(p)) ==> (g is Ne && *g->Ne_0
            == Expr::Get(p) && converts_to(*e->Ne_1, *g->Ne_1)),
        e is Gt && *e->Gt_0 == MlExpr::Literal(JsonValue::String(p)) ==> (g is Gt && *g->Gt_0
            == Expr::Get(p) && converts_to(*e->Gt_1, *g->Gt_1)),
        e is Gte && *e->Gte_0 == MlExpr::Literal(JsonValue::String(p)) ==> (g is Gte && *g->Gte_0
            == Expr::Get(p) && converts_to(*e->Gte_1, *g->Gte_1)),
        e is Lt && *e->Lt_0 == MlExpr::Literal(JsonValue::String(p)) ==> (g is Lt && *g->Lt_0
            == Expr::Get(p) && converts_to(*e->Lt_1, *g->Lt_1)),
        e is Lte && *e->Lte_0 == MlExpr::Literal(JsonValue::String(p)) ==> (g is Lte && *g->Lte_0
            == Expr::Get(p) && converts_to(*e->Lte_1, *g->Lte_1)),
        e is In && *e->In_item == MlExpr::Literal(JsonValue::String(p)) ==> (g is In && *g->In_needle
            == Expr::Get(p) && g->In_haystack@.len() == e->In_array@.len() && forall|k: int|
            0 <= k < e->In_array@.len() ==> converts_to(
                #[trigger] e->In_array@[k],
                g->In_haystack@[k],
            )),
        e is Zoom ==> g == Expr::Zoom,
        e matches MlExpr::Get { property, object } ==> object is None && g == Expr::Get(property),
{
}

/// A `match` converts to the renderer's match over the conversion of its input, with one
/// case per branch in the branches' order: the `k`-th case holds the `k`-th branch's labels
/// and the conversion of its output, and the fallback is the conversion of the fallback.
pub proof fn law_match_cases_in_branch_order(e: MlExpr, g: Expr)
    requires
        e is Match,
        converts_to(e, g),
    ensures
        g is Match,
        converts_to(*e->Match_input, g->Match_0.input),
        converts_to(*e->Match_fallback, g->Match_0.fallback),
        g->Match_0.cases@.len() == e->Match_branches@.len(),
        forall|k: int|
            0 <= k < e->Match_branches@.len() ==> labels_are(
                (#[trigger] e->Match_branches@[k]).0,
                g->Match_0.cases@[k].in_values@,
            ) && converts_to(*e->Match_branches@[k].1, g->Match_0.cases@[k].out),
{
}

impl MlExpr {
    /// The Galileo expression that this expression converts to, where it has one.
    pub fn to_galileo_expr(&self) -> (r: Option<Expr>)
        ensures
            match r {
                Some(g) => convertible(*self) && converts_to(*self, g),
                None => !convertible(*self),
            },
        decreases *self, 2nat,
    {
        match self {
            MlExpr::Literal(l) => match literal_value(l) {
                Some(v) => Some(Expr::Value(v)),
                None => None,
            },
            MlExpr::All(parts) => match convert_list(parts) {
                Some(gs) => Some(Expr::All(gs)),
                None => None,
            },
            MlExpr::Eq(p, v) => match (property_expr(p), v.to_galileo_expr()) {
                (Some(a), Some(b)) => Some(Expr::Eq(Box::new(a), Box::new(b))),
                _ => None,
            },
            MlExpr::Ne(p, v) => match (property_expr(p), v.to_galileo_expr()) {
                (Some(a), Some(b)) => Some(Expr::Ne(Box::new(a), Box::new(b))),
                _ => None,
            },
            MlExpr::Gt(p, v) => match (property_expr(p), v.to_galileo_expr()) {
                (Some(a), Some(b)) => Some(Expr::Gt(Box::new(a), Box::new(b))),
                _ => None,
            },
            MlExpr::Gte(p, v) => match (property_expr(p), v.to_galileo_expr()) {
                (Some(a), Some(b)) => Some(Expr::Gte(Box::new(a), Box::new(b))),
                _ => None,
            },
            MlExpr::Lt(p, v) => match (property_expr(p), v.to_galileo_expr()) {
                (Some(a), Some(b)) => Some(Expr::Lt(Box::new(a), Box::new(b))),
                _ => None,
            },
            MlExpr::Lte(p, v) => match (property_expr(p), v.to_galileo_expr()) {
                (Some(a), Some(b)) => Some(Expr::Lte(Box::new(a), Box::new(b))),
                _ => None,
            },
            MlExpr::Has { property, .. } => match property_expr(property) {
                Some(a) => Some(
                    Expr::Ne(Box::new(a), Box::new(Expr::Value(ExprValue::Null))),
                ),
                None => None,
            },
            MlExpr::NotHas { property, .. } => match property_expr(property) {
                Some(a) => Some(
                    Expr::Eq(Box::new(a), Box::new(Expr::Value(ExprValue::Null))),
                ),
                None => None,
            },
            MlExpr::In { item, array } => match (property_expr(item), convert_list(array)) {
                (Some(a), Some(gs)) => Some(Expr::In { needle: Box::new(a), haystack: gs }),
                _ => None,
            },
            MlExpr::NotIn { item, array } => match (property_expr(item), convert_list(array)) {
                (Some(a), Some(gs)) => Some(
                    Expr::Not(Box::new(Expr::In { needle: Box::new(a), haystack: gs })),
                ),
                _ => None,
            },
            MlExpr::Interpolate { interpolation, input, stops } => interpolation_to_galileo(
                interpolation,
                input,
                stops,
            ),
            MlExpr::Zoom => Some(Expr::Zoom),
            MlExpr::Get { property, object } => match object {
                Some(_) => None,
                None => Some(Expr::Get(property.clone())),
            },
            MlExpr::Match { input, branches, fallback } => {
                match (input.to_galileo_expr(), convert_cases(branches), fallback.to_galileo_expr()) {
                    (Some(i), Some(cases), Some(f)) => Some(
                        Expr::Match(Box::new(MatchExpr { input: i, cases, fallback: f })),
                    ),
                    _ => None,
                }
            },
            _ => None,
        }
    }
}

/// Converts every expression of a list, or none where one has no conversion.
fn convert_list(parts: &Vec<MlExpr>) -> (r: Option<Vec<Expr>>)
    ensures
        match r {
            Some(gs) => gs@.len() == parts@.len() && forall|i: int|
                0 <= i < parts@.len() ==> convertible(#[trigger] parts@[i]) && converts_to(
                    parts@[i],
                    gs@[i],
                ),
            None => exists|i: int| 0 <= i < parts@.len() && !convertible(#[trigger] parts@[i]),
        },
    decreases *parts, 2nat,
{
    let mut out: Vec<Expr> = Vec::new();
    let mut i: usize = 0;
    while i < parts.len()
        invariant
            i <= parts@.len(),
            out@.len() == i,
            forall|k: int|
                0 <= k < i ==> convertible(#[trigger] parts@[k]) && converts_to(parts@[k], out@[k]),
        decreases parts@.len() - i,
    {
        match parts[i].to_galileo_expr() {
            Some(g) => out.push(g),
            None => return None,
        }
        i = i + 1;
    }
    Some(out)
}

/// Converts the stops of an interpolation into control points.
fn convert_points(stops: &Vec<(Num, MlExpr)>) -> (r: Option<Vec<ControlPoint>>)
    ensures
        match r {
            Some(ps) => ps@.len() == stops@.len() && (forall|k: int|
                0 <= k < stops@.len() ==> (#[trigger] ps@[k]).input == Expr::Value(
                    ExprValue::Number(stops@[k].0),
                ) && converts_to(stops@[k].1, ps@[k].output)) && forall|i: int|
                0 <= i < stops@.len() ==> convertible(#[trigger] stops@[i].1),
            None => exists|i: int| 0 <= i < stops@.len() && !convertible(#[trigger] stops@[i].1),
        },
    decreases *stops, 2nat,
{
    let mut out: Vec<ControlPoint> = Vec::new();
    let mut i: usize = 0;
    while i < stops.len()
        invariant
            i <= stops@.len(),
            out@.len() == i,
            forall|k: int| 0 <= k < i ==> convertible(#[trigger] stops@[k].1),
            forall|k: int|
                0 <= k < i ==> (#[trigger] out@[k]).input == Expr::Value(
                    ExprValue::Number(stops@[k].0),
                ) && converts_to(stops@[k].1, out@[k].output),
        decreases stops@.len() - i,
    {
        let (x, e) = &stops[i];
        match e.to_galileo_expr() {
            Some(g) => out.push(ControlPoint { input: Expr::Value(ExprValue::Number(*x)), output: g }),
            None => return None,
        }
        i = i + 1;
    }
    Some(out)
}

/// Converts the branches of a `match` into cases.
fn convert_cases(branches: &Vec<(JsonValue, Box<MlExpr>)>) -> (r: Option<Vec<MatchCase>>)
    ensures
        match r {
            Some(cs) => cs@.len() == branches@.len() && forall|i: int|
                0 <= i < branches@.len() ==> labels_convertible((#[trigger] branches@[i]).0)
                    && convertible(*branches@[i].1) && labels_are(branches@[i].0, cs@[i].in_values@)
                    && converts_to(*branches@[i].1, cs@[i].out),
            None => exists|i: int|
                0 <= i < branches@.len() && !(labels_convertible((#[trigger] branches@[i]).0)
                    && convertible(*branches@[i].1)),
        },
    decreases *branches, 2nat,
{
    let mut out: Vec<MatchCase> = Vec::new();
    let mut i: usize = 0;
    while i < branches.len()
        invariant
            i <= branches@.len(),
            out@.len() == i,
            forall|k: int|
                0 <= k < i ==> labels_convertible((#[trigger] branches@[k]).0) && convertible(
                    *branches@[k].1,
                ) && labels_are(branches@[k].0, out@[k].in_values@) && converts_to(
                    *branches@[k].1,
                    out@[k].out,
                ),
        decreases branches@.len() - i,
    {
        let (labels, e) = &branches[i];
        match (label_values(labels), e.to_galileo_expr()) {
            (Some(vs), Some(g)) => out.push(MatchCase { in_values: vs, out: g }),
            _ => return None,
        }
        i = i + 1;
    }
    Some(out)
}

/// The `interpolate` expression with these parts.
pub open spec fn interpolate_expr(
    interpolation: Interpolation,
    input: MlExpr,
    stops: Vec<(Num, MlExpr)>,
) -> MlExpr {
    MlExpr::Interpolate { interpolation, input: Box::new(input), stops }
}

/// Converts `["interpolate", interpolation, input, stops...]` into the Galileo
/// interpolation of the same kind.
pub fn interpolation_to_galileo(
    interpolation: &Interpolation,
    input: &MlExpr,
    stops: &Vec<(Num, MlExpr)>,
) -> (r: Option<Expr>)
    ensures
        match r {
            Some(g) => convertible(interpolate_expr(*interpolation, *input, *stops)) && converts_to(
                interpolate_expr(*interpolation, *input, *stops),
                g,
            ),
            None => !convertible(interpolate_expr(*interpolation, *input, *stops)),
        },
    decreases interpolate_expr(*interpolation, *input, *stops), 1nat,
{
    let i = match input.to_galileo_expr() {
        Some(i) => i,
        None => return None,
    };
    proof {
        assert(interpolate_expr(*interpolation, *input, *stops)->Interpolate_stops == *stops);
    }
    let control_points = match convert_points(stops) {
        Some(ps) => ps,
        None => return None,
    };
    match interpolation {
        Interpolation::Linear => Some(
            Expr::Linear(Box::new(LinearInterpolation { input: i, control_points })),
        ),
        Interpolation::Exponential { base } => Some(
            Expr::Exponential(
                Box::new(ExponentialInterpolation { base: *base, input: i, control_points }),
            ),
        ),
        Interpolation::CubicBezier { x1, y1, x2, y2 } => {
            let curve_params = [*x1, *y1, *x2, *y2];
            assert(curve_params@ == seq![*x1, *y1, *x2, *y2]);
            Some(
                Expr::CubicBezier(
                    Box::new(CubicBezierInterpolation { input: i, control_points, curve_params }),
                ),
            )
        },
    }
}

} // verus!
