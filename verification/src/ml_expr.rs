//! Typed representation of MapLibre style expressions.
//!
//! A MapLibre expression is a JSON array whose first element is an operator
//! string and whose remaining elements are arguments. Arguments may
//! themselves be expressions (nested arrays) or bare JSON values.

use vstd::prelude::*;
use crate::json::{
    JsonNumber, JsonValue, Num, json_size, seq_size, pop_front, pop_back, lemma_json_size_positive,
    lemma_json_size_array,
};
use crate::text::str_eq;

verus! {

/// The interpolation curve of an `interpolate` expression:
/// `["linear"]`, `["exponential", base]` or `["cubic-bezier", x1, y1, x2, y2]`.
#[derive(Debug, PartialEq, Clone, Copy)]
pub enum Interpolation {
    Linear,
    Exponential { base: Num },
    CubicBezier { x1: Num, y1: Num, x2: Num, y2: Num },
}

/// A MapLibre style expression.
#[derive(Debug, PartialEq)]
#[allow(inconsistent_fields)]
pub enum MlExpr {
    /// A bare JSON value in an argument position.
    Literal(JsonValue),
    /// `["let", name_1, value_1, ..., body]`
    Let { bindings: Vec<(String, Box<MlExpr>)>, body: Box<MlExpr> },
    /// `["var", name]`
    Var(String),
    /// `["step", input, default_output, stop_input_1, stop_output_1, ...]`
    Step { input: Box<MlExpr>, default_output: Box<MlExpr>, stops: Vec<(Num, MlExpr)> },
    /// `["interpolate", interpolation, input, stop_input_1, stop_output_1, ...]`
    Interpolate { interpolation: Interpolation, input: Box<MlExpr>, stops: Vec<(Num, MlExpr)> },
    /// `["interpolate-hcl", ...]`
    InterpolateHcl { interpolation: Interpolation, input: Box<MlExpr>, stops: Vec<(Num, MlExpr)> },
    /// `["interpolate-lab", ...]`
    InterpolateLab { interpolation: Interpolation, input: Box<MlExpr>, stops: Vec<(Num, MlExpr)> },
    /// `["get", property]` or `["get", property, object]`
    Get { property: String, object: Option<Box<MlExpr>> },
    /// `["has", property]` or `["has", property, object]`
    Has { property: Box<MlExpr>, object: Option<Box<MlExpr>> },
    /// `["!has", property]` or `["!has", property, object]`
    NotHas { property: Box<MlExpr>, object: Option<Box<MlExpr>> },
    /// `["at", index, array]`
    At { index: Box<MlExpr>, array: Box<MlExpr> },
    /// `["in", item, value_1, value_2, ...]`
    In { item: Box<MlExpr>, array: Vec<MlExpr> },
    /// `["!in", item, value_1, value_2, ...]`
    NotIn { item: Box<MlExpr>, array: Vec<MlExpr> },
    /// `["index-of", item, array_or_string]` with an optional start index.
    IndexOf { item: Box<MlExpr>, array_or_string: Box<MlExpr>, from_index: Option<Box<MlExpr>> },
    /// `["slice", array_or_string, start]` with an optional end.
    Slice { array_or_string: Box<MlExpr>, start: Box<MlExpr>, end: Option<Box<MlExpr>> },
    Length(Box<MlExpr>),
    GlobalState(Box<MlExpr>),
    /// `["case", cond_1, out_1, ..., fallback]`
    Case { branches: Vec<(Box<MlExpr>, Box<MlExpr>)>, fallback: Box<MlExpr> },
    /// `["match", input, label_1, out_1, ..., fallback]`
    Match { input: Box<MlExpr>, branches: Vec<(JsonValue, Box<MlExpr>)>, fallback: Box<MlExpr> },
    Coalesce(Vec<MlExpr>),
    All(Vec<MlExpr>),
    Any(Vec<MlExpr>),
    Not(Box<MlExpr>),
    Eq(Box<MlExpr>, Box<MlExpr>),
    Ne(Box<MlExpr>, Box<MlExpr>),
    Gt(Box<MlExpr>, Box<MlExpr>),
    Gte(Box<MlExpr>, Box<MlExpr>),
    Lt(Box<MlExpr>, Box<MlExpr>),
    Lte(Box<MlExpr>, Box<MlExpr>),
    Within(JsonValue),
    Add(Vec<MlExpr>),
    Mul(Vec<MlExpr>),
    /// `["-", a, b]` or `["-", a]`
    Sub(Box<MlExpr>, Option<Box<MlExpr>>),
    Div(Box<MlExpr>, Box<MlExpr>),
    Mod(Box<MlExpr>, Box<MlExpr>),
    Pow(Box<MlExpr>, Box<MlExpr>),
    Sqrt(Box<MlExpr>),
    Abs(Box<MlExpr>),
    Ceil(Box<MlExpr>),
    Floor(Box<MlExpr>),
    Round(Box<MlExpr>),
    Min(Vec<MlExpr>),
    Max(Vec<MlExpr>),
    Log2(Box<MlExpr>),
    Log10(Box<MlExpr>),
    Ln(Box<MlExpr>),
    Sin(Box<MlExpr>),
    Cos(Box<MlExpr>),
    Tan(Box<MlExpr>),
    Asin(Box<MlExpr>),
    Acos(Box<MlExpr>),
    Atan(Box<MlExpr>),
    Ln2,
    Pi,
    E,
    Distance(JsonValue),
    Rgb(Box<MlExpr>, Box<MlExpr>, Box<MlExpr>),
    Rgba(Box<MlExpr>, Box<MlExpr>, Box<MlExpr>, Box<MlExpr>),
    ToRgba(Box<MlExpr>),
    /// `["literal", value]`
    LiteralExpr(JsonValue),
    TypeOf(Box<MlExpr>),
    ToString(Box<MlExpr>),
    ToNumber(Vec<MlExpr>),
    ToBoolean(Box<MlExpr>),
    ToColor(Vec<MlExpr>),
    NumberAssertion(Vec<MlExpr>),
    StringAssertion(Vec<MlExpr>),
    BooleanAssertion(Vec<MlExpr>),
    ObjectAssertion(Vec<MlExpr>),
    /// `["array", value]`, `["array", type, value]` or `["array", type, length, value]`
    ArrayAssertion { element_type: Option<String>, length: Option<u64>, value: Box<MlExpr> },
    Collator(JsonValue),
    /// `["format", input_1, style_1?, ...]`
    Format(Vec<(Box<MlExpr>, Option<JsonValue>)>),
    Image(Box<MlExpr>),
    NumberFormat { input: Box<MlExpr>, options: JsonValue },
    FeatureState(Box<MlExpr>),
    GeometryType,
    Id,
    Properties,
    Accumulated,
    LineProgress,
    Zoom,
    HeatmapDensity,
    Elevation,
    Upcase(Box<MlExpr>),
    Downcase(Box<MlExpr>),
    Concat(Vec<MlExpr>),
    IsSupportedScript(Box<MlExpr>),
    ResolvedLocale(Box<MlExpr>),
    Split(Box<MlExpr>, Box<MlExpr>),
    Join(Box<MlExpr>, Box<MlExpr>),
    /// An operator this library does not know, with its arguments as given.
    Unknown { operator: String, args: Vec<JsonValue> },
}

/// Operators that take one expression argument.
#[derive(Debug, PartialEq, Clone, Copy)]
pub enum UnaryOp {
    Length, GlobalState, Not, Sqrt, Abs, Ceil, Floor, Round, Log2, Log10, Ln, Sin, Cos, Tan,
    Asin, Acos, Atan, ToRgba, TypeOf, ToString, ToBoolean, Image, FeatureState, Upcase,
    Downcase, IsSupportedScript, ResolvedLocale,
}

/// Operators that take two expression arguments.
#[derive(Debug, PartialEq, Clone, Copy)]
pub enum BinaryOp {
    At, Eq, Ne, Gt, Gte, Lt, Lte, Div, Mod, Pow, Split, Join,
}

/// Operators that take any number of expression arguments.
#[derive(Debug, PartialEq, Clone, Copy)]
pub enum VariadicOp {
    Coalesce, All, Any, Add, Mul, Min, Max, ToNumber, ToColor, NumberAssertion,
    StringAssertion, BooleanAssertion, ObjectAssertion, Concat,
}

/// Operators that take no argument.
#[derive(Debug, PartialEq, Clone, Copy)]
pub enum NullaryOp {
    Ln2, Pi, E, GeometryType, Id, Properties, Accumulated, LineProgress, Zoom, HeatmapDensity,
    Elevation,
}

/// Operators whose one argument is kept as raw JSON.
#[derive(Debug, PartialEq, Clone, Copy)]
pub enum RawOp {
    Within, Distance, Literal, Collator,
}

/// The colour spaces of the `interpolate` family.
#[derive(Debug, PartialEq, Clone, Copy)]
pub enum InterpolateSpace {
    Plain, Hcl, Lab,
}

/// The shape of an expression, with the expressions inside it taken by their shapes.
#[allow(inconsistent_fields)]
pub enum MlTree {
    Literal(JsonValue),
    Let { bindings: Seq<(String, MlTree)>, body: Box<MlTree> },
    Var(String),
    Step { input: Box<MlTree>, default_output: Box<MlTree>, stops: Seq<(Num, MlTree)> },
    Interpolate {
        space: InterpolateSpace,
        interpolation: Interpolation,
        input: Box<MlTree>,
        stops: Seq<(Num, MlTree)>,
    },
    Get { property: String, object: Option<Box<MlTree>> },
    Has { negated: bool, property: Box<MlTree>, object: Option<Box<MlTree>> },
    In { negated: bool, item: Box<MlTree>, array: Seq<MlTree> },
    IndexOf { item: Box<MlTree>, array_or_string: Box<MlTree>, from_index: Option<Box<MlTree>> },
    Slice { array_or_string: Box<MlTree>, start: Box<MlTree>, end: Option<Box<MlTree>> },
    Case { branches: Seq<(MlTree, MlTree)>, fallback: Box<MlTree> },
    Match { input: Box<MlTree>, branches: Seq<(JsonValue, MlTree)>, fallback: Box<MlTree> },
    Unary(UnaryOp, Box<MlTree>),
    Binary(BinaryOp, Box<MlTree>, Box<MlTree>),
    Variadic(VariadicOp, Seq<MlTree>),
    Nullary(NullaryOp),
    Raw(RawOp, JsonValue),
    Sub(Box<MlTree>, Option<Box<MlTree>>),
    Rgb(Box<MlTree>, Box<MlTree>, Box<MlTree>),
    Rgba(Box<MlTree>, Box<MlTree>, Box<MlTree>, Box<MlTree>),
    ArrayAssertion { element_type: Option<String>, length: Option<u64>, value: Box<MlTree> },
    Format(Seq<(MlTree, Option<JsonValue>)>),
    NumberFormat { input: Box<MlTree>, options: JsonValue },
    Unknown { operator: String, args: Seq<JsonValue> },
}

pub open spec fn tree_opt(o: Option<Box<MlExpr>>) -> Option<Box<MlTree>>
    decreases o,
{
    match o {
        Some(b) => Some(Box::new(tree_of(*b))),
        None => None,
    }
}

pub open spec fn trees_of(s: Seq<MlExpr>) -> Seq<MlTree>
    decreases s,
{
    Seq::new(s.len(), |i: int| if 0 <= i < s.len() { tree_of(s[i]) } else { arbitrary() })
}

pub open spec fn stops_tree(s: Seq<(Num, MlExpr)>) -> Seq<(Num, MlTree)>
    decreases s,
{
    Seq::new(s.len(), |i: int| if 0 <= i < s.len() { (s[i].0, tree_of(s[i].1)) } else { arbitrary() })
}

pub open spec fn bindings_tree(s: Seq<(String, Box<MlExpr>)>) -> Seq<(String, MlTree)>
    decreases s,
{
    Seq::new(s.len(), |i: int| if 0 <= i < s.len() { (s[i].0, tree_of(*s[i].1)) } else { arbitrary() })
}

pub open spec fn case_tree(s: Seq<(Box<MlExpr>, Box<MlExpr>)>) -> Seq<(MlTree, MlTree)>
    decreases s,
{
    Seq::new(
        s.len(),
        |i: int| if 0 <= i < s.len() { (tree_of(*s[i].0), tree_of(*s[i].1)) } else { arbitrary() },
    )
}

pub open spec fn match_tree(s: Seq<(JsonValue, Box<MlExpr>)>) -> Seq<(JsonValue, MlTree)>
    decreases s,
{
    Seq::new(s.len(), |i: int| if 0 <= i < s.len() { (s[i].0, tree_of(*s[i].1)) } else { arbitrary() })
}

pub open spec fn format_tree(s: Seq<(Box<MlExpr>, Option<JsonValue>)>) -> Seq<(MlTree, Option<JsonValue>)>
    decreases s,
{
    Seq::new(s.len(), |i: int| if 0 <= i < s.len() { (tree_of(*s[i].0), s[i].1) } else { arbitrary() })
}

/// The shape of an expression.
#[verifier::opaque]
pub open spec fn tree_of(e: MlExpr) -> MlTree
    decreases e,
{
    match e {
        MlExpr::Literal(v) => MlTree::Literal(v),
        MlExpr::Let { bindings, body } => MlTree::Let {
            bindings: bindings_tree(bindings@),
            body: Box::new(tree_of(*body)),
        },
        MlExpr::Var(n) => MlTree::Var(n),
        MlExpr::Step { input, default_output, stops } => MlTree::Step {
            input: Box::new(tree_of(*input)),
            default_output: Box::new(tree_of(*default_output)),
            stops: stops_tree(stops@),
        },
        MlExpr::Interpolate { interpolation, input, stops } => MlTree::Interpolate {
            space: InterpolateSpace::Plain,
            interpolation,
            input: Box::new(tree_of(*input)),
            stops: stops_tree(stops@),
        },
        MlExpr::InterpolateHcl { interpolation, input, stops } => MlTree::Interpolate {
            space: InterpolateSpace::Hcl,
            interpolation,
            input: Box::new(tree_of(*input)),
            stops: stops_tree(stops@),
        },
        MlExpr::InterpolateLab { interpolation, input, stops } => MlTree::Interpolate {
            space: InterpolateSpace::Lab,
            interpolation,
            input: Box::new(tree_of(*input)),
            stops: stops_tree(stops@),
        },
        MlExpr::Get { property, object } => MlTree::Get { property, object: tree_opt(object) },
        MlExpr::Has { property, object } => MlTree::Has {
            negated: false,
            property: Box::new(tree_of(*property)),
            object: tree_opt(object),
        },
        MlExpr::NotHas { property, object } => MlTree::Has {
            negated: true,
            property: Box::new(tree_of(*property)),
            object: tree_opt(object),
        },
        MlExpr::At { index, array } => MlTree::Binary(
            BinaryOp::At,
            Box::new(tree_of(*index)),
            Box::new(tree_of(*array)),
        ),
        MlExpr::In { item, array } => MlTree::In {
            negated: false,
            item: Box::new(tree_of(*item)),
            array: trees_of(array@),
        },
        MlExpr::NotIn { item, array } => MlTree::In {
            negated: true,
            item: Box::new(tree_of(*item)),
            array: trees_of(array@),
        },
        MlExpr::IndexOf { item, array_or_string, from_index } => MlTree::IndexOf {
            item: Box::new(tree_of(*item)),
            array_or_string: Box::new(tree_of(*array_or_string)),
            from_index: tree_opt(from_index),
        },
        MlExpr::Slice { array_or_string, start, end } => MlTree::Slice {
            array_or_string: Box::new(tree_of(*array_or_string)),
            start: Box::new(tree_of(*start)),
            end: tree_opt(end),
        },
        MlExpr::Length(a) => MlTree::Unary(UnaryOp::Length, Box::new(tree_of(*a))),
        MlExpr::GlobalState(a) => MlTree::Unary(UnaryOp::GlobalState, Box::new(tree_of(*a))),
        MlExpr::Case { branches, fallback } => MlTree::Case {
            branches: case_tree(branches@),
            fallback: Box::new(tree_of(*fallback)),
        },
        MlExpr::Match { input, branches, fallback } => MlTree::Match {
            input: Box::new(tree_of(*input)),
            branches: match_tree(branches@),
            fallback: Box::new(tree_of(*fallback)),
        },
        MlExpr::Coalesce(a) => MlTree::Variadic(VariadicOp::Coalesce, trees_of(a@)),
        MlExpr::All(a) => MlTree::Variadic(VariadicOp::All, trees_of(a@)),
        MlExpr::Any(a) => MlTree::Variadic(VariadicOp::Any, trees_of(a@)),
        MlExpr::Not(a) => MlTree::Unary(UnaryOp::Not, Box::new(tree_of(*a))),
        MlExpr::Eq(a, b) => MlTree::Binary(BinaryOp::Eq, Box::new(tree_of(*a)), Box::new(tree_of(*b))),
        MlExpr::Ne(a, b) => MlTree::Binary(BinaryOp::Ne, Box::new(tree_of(*a)), Box::new(tree_of(*b))),
        MlExpr::Gt(a, b) => MlTree::Binary(BinaryOp::Gt, Box::new(tree_of(*a)), Box::new(tree_of(*b))),
        MlExpr::Gte(a, b) => MlTree::Binary(BinaryOp::Gte, Box::new(tree_of(*a)), Box::new(tree_of(*b))),
        MlExpr::Lt(a, b) => MlTree::Binary(BinaryOp::Lt, Box::new(tree_of(*a)), Box::new(tree_of(*b))),
        MlExpr::Lte(a, b) => MlTree::Binary(BinaryOp::Lte, Box::new(tree_of(*a)), Box::new(tree_of(*b))),
        MlExpr::Within(v) => MlTree::Raw(RawOp::Within, v),
        MlExpr::Add(a) => MlTree::Variadic(VariadicOp::Add, trees_of(a@)),
        MlExpr::Mul(a) => MlTree::Variadic(VariadicOp::Mul, trees_of(a@)),
        MlExpr::Sub(a, b) => MlTree::Sub(Box::new(tree_of(*a)), tree_opt(b)),
        MlExpr::Div(a, b) => MlTree::Binary(BinaryOp::Div, Box::new(tree_of(*a)), Box::new(tree_of(*b))),
        MlExpr::Mod(a, b) => MlTree::Binary(BinaryOp::Mod, Box::new(tree_of(*a)), Box::new(tree_of(*b))),
        MlExpr::Pow(a, b) => MlTree::Binary(BinaryOp::Pow, Box::new(tree_of(*a)), Box::new(tree_of(*b))),
        MlExpr::Sqrt(a) => MlTree::Unary(UnaryOp::Sqrt, Box::new(tree_of(*a))),
        MlExpr::Abs(a) => MlTree::Unary(UnaryOp::Abs, Box::new(tree_of(*a))),
        MlExpr::Ceil(a) => MlTree::Unary(UnaryOp::Ceil, Box::new(tree_of(*a))),
        MlExpr::Floor(a) => MlTree::Unary(UnaryOp::Floor, Box::new(tree_of(*a))),
        MlExpr::Round(a) => MlTree::Unary(UnaryOp::Round, Box::new(tree_of(*a))),
        MlExpr::Min(a) => MlTree::Variadic(VariadicOp::Min, trees_of(a@)),
        MlExpr::Max(a) => MlTree::Variadic(VariadicOp::Max, trees_of(a@)),
        MlExpr::Log2(a) => MlTree::Unary(UnaryOp::Log2, Box::new(tree_of(*a))),
        MlExpr::Log10(a) => MlTree::Unary(UnaryOp::Log10, Box::new(tree_of(*a))),
        MlExpr::Ln(a) => MlTree::Unary(UnaryOp::Ln, Box::new(tree_of(*a))),
        MlExpr::Sin(a) => MlTree::Unary(UnaryOp::Sin, Box::new(tree_of(*a))),
        MlExpr::Cos(a) => MlTree::Unary(UnaryOp::Cos, Box::new(tree_of(*a))),
        MlExpr::Tan(a) => MlTree::Unary(UnaryOp::Tan, Box::new(tree_of(*a))),
        MlExpr::Asin(a) => MlTree::Unary(UnaryOp::Asin, Box::new(tree_of(*a))),
        MlExpr::Acos(a) => MlTree::Unary(UnaryOp::Acos, Box::new(tree_of(*a))),
        MlExpr::Atan(a) => MlTree::Unary(UnaryOp::Atan, Box::new(tree_of(*a))),
        MlExpr::Ln2 => MlTree::Nullary(NullaryOp::Ln2),
        MlExpr::Pi => MlTree::Nullary(NullaryOp::Pi),
        MlExpr::E => MlTree::Nullary(NullaryOp::E),
        MlExpr::Distance(v) => MlTree::Raw(RawOp::Distance, v),
        MlExpr::Rgb(a, b, c) => MlTree::Rgb(
            Box::new(tree_of(*a)),
            Box::new(tree_of(*b)),
            Box::new(tree_of(*c)),
        ),
        MlExpr::Rgba(a, b, c, d) => MlTree::Rgba(
            Box::new(tree_of(*a)),
            Box::new(tree_of(*b)),
            Box::new(tree_of(*c)),
            Box::new(tree_of(*d)),
        ),
        MlExpr::ToRgba(a) => MlTree::Unary(UnaryOp::ToRgba, Box::new(tree_of(*a))),
        MlExpr::LiteralExpr(v) => MlTree::Raw(RawOp::Literal, v),
        MlExpr::TypeOf(a) => MlTree::Unary(UnaryOp::TypeOf, Box::new(tree_of(*a))),
        MlExpr::ToString(a) => MlTree::Unary(UnaryOp::ToString, Box::new(tree_of(*a))),
        MlExpr::ToNumber(a) => MlTree::Variadic(VariadicOp::ToNumber, trees_of(a@)),
        MlExpr::ToBoolean(a) => MlTree::Unary(UnaryOp::ToBoolean, Box::new(tree_of(*a))),
        MlExpr::ToColor(a) => MlTree::Variadic(VariadicOp::ToColor, trees_of(a@)),
        MlExpr::NumberAssertion(a) => MlTree::Variadic(VariadicOp::NumberAssertion, trees_of(a@)),
        MlExpr::StringAssertion(a) => MlTree::Variadic(VariadicOp::StringAssertion, trees_of(a@)),
        MlExpr::BooleanAssertion(a) => MlTree::Variadic(VariadicOp::BooleanAssertion, trees_of(a@)),
        MlExpr::ObjectAssertion(a) => MlTree::Variadic(VariadicOp::ObjectAssertion, trees_of(a@)),
        MlExpr::ArrayAssertion { element_type, length, value } => MlTree::ArrayAssertion {
            element_type,
            length,
            value: Box::new(tree_of(*value)),
        },
        MlExpr::Collator(v) => MlTree::Raw(RawOp::Collator, v),
        MlExpr::Format(s) => MlTree::Format(
            format_tree(s@),
        ),
        MlExpr::Image(a) => MlTree::Unary(UnaryOp::Image, Box::new(tree_of(*a))),
        MlExpr::NumberFormat { input, options } => MlTree::NumberFormat {
            input: Box::new(tree_of(*input)),
            options,
        },
        MlExpr::FeatureState(a) => MlTree::Unary(UnaryOp::FeatureState, Box::new(tree_of(*a))),
        MlExpr::GeometryType => MlTree::Nullary(NullaryOp::GeometryType),
        MlExpr::Id => MlTree::Nullary(NullaryOp::Id),
        MlExpr::Properties => MlTree::Nullary(NullaryOp::Properties),
        MlExpr::Accumulated => MlTree::Nullary(NullaryOp::Accumulated),
        MlExpr::LineProgress => MlTree::Nullary(NullaryOp::LineProgress),
        MlExpr::Zoom => MlTree::Nullary(NullaryOp::Zoom),
        MlExpr::HeatmapDensity => MlTree::Nullary(NullaryOp::HeatmapDensity),
        MlExpr::Elevation => MlTree::Nullary(NullaryOp::Elevation),
        MlExpr::Upcase(a) => MlTree::Unary(UnaryOp::Upcase, Box::new(tree_of(*a))),
        MlExpr::Downcase(a) => MlTree::Unary(UnaryOp::Downcase, Box::new(tree_of(*a))),
        MlExpr::Concat(a) => MlTree::Variadic(VariadicOp::Concat, trees_of(a@)),
        MlExpr::IsSupportedScript(a) => MlTree::Unary(UnaryOp::IsSupportedScript, Box::new(tree_of(*a))),
        MlExpr::ResolvedLocale(a) => MlTree::Unary(UnaryOp::ResolvedLocale, Box::new(tree_of(*a))),
        MlExpr::Split(a, b) => MlTree::Binary(BinaryOp::Split, Box::new(tree_of(*a)), Box::new(tree_of(*b))),
        MlExpr::Join(a, b) => MlTree::Binary(BinaryOp::Join, Box::new(tree_of(*a)), Box::new(tree_of(*b))),
        MlExpr::Unknown { operator, args } => MlTree::Unknown { operator, args: args@ },
    }
}

impl UnaryOp {
    /// The operator's name in the style JSON.
    pub open spec fn name(self) -> &'static str {
        match self {
            UnaryOp::Length => "length",
            UnaryOp::GlobalState => "global-state",
            UnaryOp::Not => "!",
            UnaryOp::Sqrt => "sqrt",
            UnaryOp::Abs => "abs",
            UnaryOp::Ceil => "ceil",
            UnaryOp::Floor => "floor",
            UnaryOp::Round => "round",
            UnaryOp::Log2 => "log2",
            UnaryOp::Log10 => "log10",
            UnaryOp::Ln => "ln",
            UnaryOp::Sin => "sin",
            UnaryOp::Cos => "cos",
            UnaryOp::Tan => "tan",
            UnaryOp::Asin => "asin",
            UnaryOp::Acos => "acos",
            UnaryOp::Atan => "atan",
            UnaryOp::ToRgba => "to-rgba",
            UnaryOp::TypeOf => "typeof",
            UnaryOp::ToString => "to-string",
            UnaryOp::ToBoolean => "to-boolean",
            UnaryOp::Image => "image",
            UnaryOp::FeatureState => "feature-state",
            UnaryOp::Upcase => "upcase",
            UnaryOp::Downcase => "downcase",
            UnaryOp::IsSupportedScript => "is-supported-script",
            UnaryOp::ResolvedLocale => "resolved-locale",
        }
    }

    /// The operator's name in the style JSON.
    pub fn op_name(self) -> (r: &'static str)
        ensures
            r == self.name(),
    {
        match self {
            UnaryOp::Length => "length",
            UnaryOp::GlobalState => "global-state",
            UnaryOp::Not => "!",
            UnaryOp::Sqrt => "sqrt",
            UnaryOp::Abs => "abs",
            UnaryOp::Ceil => "ceil",
            UnaryOp::Floor => "floor",
            UnaryOp::Round => "round",
            UnaryOp::Log2 => "log2",
            UnaryOp::Log10 => "log10",
            UnaryOp::Ln => "ln",
            UnaryOp::Sin => "sin",
            UnaryOp::Cos => "cos",
            UnaryOp::Tan => "tan",
            UnaryOp::Asin => "asin",
            UnaryOp::Acos => "acos",
            UnaryOp::Atan => "atan",
            UnaryOp::ToRgba => "to-rgba",
            UnaryOp::TypeOf => "typeof",
            UnaryOp::ToString => "to-string",
            UnaryOp::ToBoolean => "to-boolean",
            UnaryOp::Image => "image",
            UnaryOp::FeatureState => "feature-state",
            UnaryOp::Upcase => "upcase",
            UnaryOp::Downcase => "downcase",
            UnaryOp::IsSupportedScript => "is-supported-script",
            UnaryOp::ResolvedLocale => "resolved-locale",
        }
    }
}

impl BinaryOp {
    /// The operator's name in the style JSON.
    pub open spec fn name(self) -> &'static str {
        match self {
            BinaryOp::At => "at",
            BinaryOp::Eq => "==",
            BinaryOp::Ne => "!=",
            BinaryOp::Gt => ">",
            BinaryOp::Gte => ">=",
            BinaryOp::Lt => "<",
            BinaryOp::Lte => "<=",
            BinaryOp::Div => "/",
            BinaryOp::Mod => "%",
            BinaryOp::Pow => "^",
            BinaryOp::Split => "split",
            BinaryOp::Join => "join",
        }
    }

    /// The operator's name in the style JSON.
    pub fn op_name(self) -> (r: &'static str)
        ensures
            r == self.name(),
    {
        match self {
            BinaryOp::At => "at",
            BinaryOp::Eq => "==",
            BinaryOp::Ne => "!=",
            BinaryOp::Gt => ">",
            BinaryOp::Gte => ">=",
            BinaryOp::Lt => "<",
            BinaryOp::Lte => "<=",
            BinaryOp::Div => "/",
            BinaryOp::Mod => "%",
            BinaryOp::Pow => "^",
            BinaryOp::Split => "split",
            BinaryOp::Join => "join",
        }
    }
}

impl VariadicOp {
    /// The operator's name in the style JSON.
    pub open spec fn name(self) -> &'static str {
        match self {
            VariadicOp::Coalesce => "coalesce",
            VariadicOp::All => "all",
            VariadicOp::Any => "any",
            VariadicOp::Add => "+",
            VariadicOp::Mul => "*",
            VariadicOp::Min => "min",
            VariadicOp::Max => "max",
            VariadicOp::ToNumber => "to-number",
            VariadicOp::ToColor => "to-color",
            VariadicOp::NumberAssertion => "number",
            VariadicOp::StringAssertion => "string",
            VariadicOp::BooleanAssertion => "boolean",
            VariadicOp::ObjectAssertion => "object",
            VariadicOp::Concat => "concat",
        }
    }

    /// The operator's name in the style JSON.
    pub fn op_name(self) -> (r: &'static str)
        ensures
            r == self.name(),
    {
        match self {
            VariadicOp::Coalesce => "coalesce",
            VariadicOp::All => "all",
            VariadicOp::Any => "any",
            VariadicOp::Add => "+",
            VariadicOp::Mul => "*",
            VariadicOp::Min => "min",
            VariadicOp::Max => "max",
            VariadicOp::ToNumber => "to-number",
            VariadicOp::ToColor => "to-color",
            VariadicOp::NumberAssertion => "number",
            VariadicOp::StringAssertion => "string",
            VariadicOp::BooleanAssertion => "boolean",
            VariadicOp::ObjectAssertion => "object",
            VariadicOp::Concat => "concat",
        }
    }
}

impl NullaryOp {
    /// The operator's name in the style JSON.
    pub open spec fn name(self) -> &'static str {
        match self {
            NullaryOp::Ln2 => "ln2",
            NullaryOp::Pi => "pi",
            NullaryOp::E => "e",
            NullaryOp::GeometryType => "geometry-type",
            NullaryOp::Id => "id",
            NullaryOp::Properties => "properties",
            NullaryOp::Accumulated => "accumulated",
            NullaryOp::LineProgress => "line-progress",
            NullaryOp::Zoom => "zoom",
            NullaryOp::HeatmapDensity => "heatmap-density",
            NullaryOp::Elevation => "elevation",
        }
    }

    /// The operator's name in the style JSON.
    pub fn op_name(self) -> (r: &'static str)
        ensures
            r == self.name(),
    {
        match self {
            NullaryOp::Ln2 => "ln2",
            NullaryOp::Pi => "pi",
            NullaryOp::E => "e",
            NullaryOp::GeometryType => "geometry-type",
            NullaryOp::Id => "id",
            NullaryOp::Properties => "properties",
            NullaryOp::Accumulated => "accumulated",
            NullaryOp::LineProgress => "line-progress",
            NullaryOp::Zoom => "zoom",
            NullaryOp::HeatmapDensity => "heatmap-density",
            NullaryOp::Elevation => "elevation",
        }
    }
}

impl RawOp {
    /// The operator's name in the style JSON.
    pub open spec fn name(self) -> &'static str {
        match self {
            RawOp::Within => "within",
            RawOp::Distance => "distance",
            RawOp::Literal => "literal",
            RawOp::Collator => "collator",
        }
    }

    /// The operator's name in the style JSON.
    pub fn op_name(self) -> (r: &'static str)
        ensures
            r == self.name(),
    {
        match self {
            RawOp::Within => "within",
            RawOp::Distance => "distance",
            RawOp::Literal => "literal",
            RawOp::Collator => "collator",
        }
    }
}

impl InterpolateSpace {
    /// The operator's name in the style JSON.
    pub open spec fn name(self) -> &'static str {
        match self {
            InterpolateSpace::Plain => "interpolate",
            InterpolateSpace::Hcl => "interpolate-hcl",
            InterpolateSpace::Lab => "interpolate-lab",
        }
    }

    /// The operator's name in the style JSON.
    pub fn op_name(self) -> (r: &'static str)
        ensures
            r == self.name(),
    {
        match self {
            InterpolateSpace::Plain => "interpolate",
            InterpolateSpace::Hcl => "interpolate-hcl",
            InterpolateSpace::Lab => "interpolate-lab",
        }
    }
}

/// Builds the expression of a UnaryOp operator.
pub fn make_unary(op: UnaryOp, a: Box<MlExpr>) -> (r: MlExpr)
    ensures
        tree_of(r) == MlTree::Unary(op, Box::new(tree_of(*a))),
{
    reveal(tree_of);
    match op {
        UnaryOp::Length => MlExpr::Length(a),
        UnaryOp::GlobalState => MlExpr::GlobalState(a),
        UnaryOp::Not => MlExpr::Not(a),
        UnaryOp::Sqrt => MlExpr::Sqrt(a),
        UnaryOp::Abs => MlExpr::Abs(a),
        UnaryOp::Ceil => MlExpr::Ceil(a),
        UnaryOp::Floor => MlExpr::Floor(a),
        UnaryOp::Round => MlExpr::Round(a),
        UnaryOp::Log2 => MlExpr::Log2(a),
        UnaryOp::Log10 => MlExpr::Log10(a),
        UnaryOp::Ln => MlExpr::Ln(a),
        UnaryOp::Sin => MlExpr::Sin(a),
        UnaryOp::Cos => MlExpr::Cos(a),
        UnaryOp::Tan => MlExpr::Tan(a),
        UnaryOp::Asin => MlExpr::Asin(a),
        UnaryOp::Acos => MlExpr::Acos(a),
        UnaryOp::Atan => MlExpr::Atan(a),
        UnaryOp::ToRgba => MlExpr::ToRgba(a),
        UnaryOp::TypeOf => MlExpr::TypeOf(a),
        UnaryOp::ToString => MlExpr::ToString(a),
        UnaryOp::ToBoolean => MlExpr::ToBoolean(a),
        UnaryOp::Image => MlExpr::Image(a),
        UnaryOp::FeatureState => MlExpr::FeatureState(a),
        UnaryOp::Upcase => MlExpr::Upcase(a),
        UnaryOp::Downcase => MlExpr::Downcase(a),
        UnaryOp::IsSupportedScript => MlExpr::IsSupportedScript(a),
        UnaryOp::ResolvedLocale => MlExpr::ResolvedLocale(a),
    }
}

/// Builds the expression of a BinaryOp operator.
pub fn make_binary(op: BinaryOp, a: Box<MlExpr>, b: Box<MlExpr>) -> (r: MlExpr)
    ensures
        tree_of(r) == MlTree::Binary(op, Box::new(tree_of(*a)), Box::new(tree_of(*b))),
{
    reveal(tree_of);
    match op {
        BinaryOp::At => MlExpr::At { index: a, array: b },
        BinaryOp::Eq => MlExpr::Eq(a, b),
        BinaryOp::Ne => MlExpr::Ne(a, b),
        BinaryOp::Gt => MlExpr::Gt(a, b),
        BinaryOp::Gte => MlExpr::Gte(a, b),
        BinaryOp::Lt => MlExpr::Lt(a, b),
        BinaryOp::Lte => MlExpr::Lte(a, b),
        BinaryOp::Div => MlExpr::Div(a, b),
        BinaryOp::Mod => MlExpr::Mod(a, b),
        BinaryOp::Pow => MlExpr::Pow(a, b),
        BinaryOp::Split => MlExpr::Split(a, b),
        BinaryOp::Join => MlExpr::Join(a, b),
    }
}

/// Builds the expression of a VariadicOp operator.
pub fn make_variadic(op: VariadicOp, a: Vec<MlExpr>) -> (r: MlExpr)
    ensures
        tree_of(r) == MlTree::Variadic(op, trees_of(a@)),
{
    reveal(tree_of);
    match op {
        VariadicOp::Coalesce => MlExpr::Coalesce(a),
        VariadicOp::All => MlExpr::All(a),
        VariadicOp::Any => MlExpr::Any(a),
        VariadicOp::Add => MlExpr::Add(a),
        VariadicOp::Mul => MlExpr::Mul(a),
        VariadicOp::Min => MlExpr::Min(a),
        VariadicOp::Max => MlExpr::Max(a),
        VariadicOp::ToNumber => MlExpr::ToNumber(a),
        VariadicOp::ToColor => MlExpr::ToColor(a),
        VariadicOp::NumberAssertion => MlExpr::NumberAssertion(a),
        VariadicOp::StringAssertion => MlExpr::StringAssertion(a),
        VariadicOp::BooleanAssertion => MlExpr::BooleanAssertion(a),
        VariadicOp::ObjectAssertion => MlExpr::ObjectAssertion(a),
        VariadicOp::Concat => MlExpr::Concat(a),
    }
}

/// Builds the expression of a RawOp operator.
pub fn make_raw(op: RawOp, v: JsonValue) -> (r: MlExpr)
    ensures
        tree_of(r) == MlTree::Raw(op, v),
{
    reveal(tree_of);
    match op {
        RawOp::Within => MlExpr::Within(v),
        RawOp::Distance => MlExpr::Distance(v),
        RawOp::Literal => MlExpr::LiteralExpr(v),
        RawOp::Collator => MlExpr::Collator(v),
    }
}

/// Builds the expression of an operator without arguments.
pub fn make_nullary(op: NullaryOp) -> (r: MlExpr)
    ensures
        tree_of(r) == MlTree::Nullary(op),
{
    reveal(tree_of);
    match op {
        NullaryOp::Ln2 => MlExpr::Ln2,
        NullaryOp::Pi => MlExpr::Pi,
        NullaryOp::E => MlExpr::E,
        NullaryOp::GeometryType => MlExpr::GeometryType,
        NullaryOp::Id => MlExpr::Id,
        NullaryOp::Properties => MlExpr::Properties,
        NullaryOp::Accumulated => MlExpr::Accumulated,
        NullaryOp::LineProgress => MlExpr::LineProgress,
        NullaryOp::Zoom => MlExpr::Zoom,
        NullaryOp::HeatmapDensity => MlExpr::HeatmapDensity,
        NullaryOp::Elevation => MlExpr::Elevation,
    }
}

/// How an operator's arguments are read.
#[derive(Debug, PartialEq, Clone, Copy)]
pub enum OpKind {
    Let, Var, Step, Interpolate(InterpolateSpace), Get, Has(bool), In(bool), IndexOf, Slice,
    Case, Match, Sub, Rgb, Rgba, ArrayAssertion, Format, NumberFormat,
    Unary(UnaryOp), Binary(BinaryOp), Variadic(VariadicOp), Nullary(NullaryOp), Raw(RawOp),
    Unknown,
}

/// The kind of the operator named `op`.
#[verifier::opaque]
pub open spec fn op_kind(op: Seq<char>) -> OpKind {
    if op == "literal"@ {
        OpKind::Raw(RawOp::Literal)
    } else     if op == "let"@ {
        OpKind::Let
    } else     if op == "var"@ {
        OpKind::Var
    } else     if op == "step"@ {
        OpKind::Step
    } else     if op == "interpolate"@ {
        OpKind::Interpolate(InterpolateSpace::Plain)
    } else     if op == "interpolate-hcl"@ {
        OpKind::Interpolate(InterpolateSpace::Hcl)
    } else     if op == "interpolate-lab"@ {
        OpKind::Interpolate(InterpolateSpace::Lab)
    } else     if op == "get"@ {
        OpKind::Get
    } else     if op == "has"@ {
        OpKind::Has(false)
    } else     if op == "!has"@ {
        OpKind::Has(true)
    } else     if op == "at"@ {
        OpKind::Binary(BinaryOp::At)
    } else     if op == "in"@ {
        OpKind::In(false)
    } else     if op == "!in"@ {
        OpKind::In(true)
    } else     if op == "index-of"@ {
        OpKind::IndexOf
    } else     if op == "slice"@ {
        OpKind::Slice
    } else     if op == "length"@ {
        OpKind::Unary(UnaryOp::Length)
    } else     if op == "global-state"@ {
        OpKind::Unary(UnaryOp::GlobalState)
    } else     if op == "case"@ {
        OpKind::Case
    } else     if op == "match"@ {
        OpKind::Match
    } else     if op == "coalesce"@ {
        OpKind::Variadic(VariadicOp::Coalesce)
    } else     if op == "all"@ {
        OpKind::Variadic(VariadicOp::All)
    } else     if op == "any"@ {
        OpKind::Variadic(VariadicOp::Any)
    } else     if op == "!"@ {
        OpKind::Unary(UnaryOp::Not)
    } else     if op == "=="@ {
        OpKind::Binary(BinaryOp::Eq)
    } else     if op == "!="@ {
        OpKind::Binary(BinaryOp::Ne)
    } else     if op == ">"@ {
        OpKind::Binary(BinaryOp::Gt)
    } else     if op == ">="@ {
        OpKind::Binary(BinaryOp::Gte)
    } else     if op == "<"@ {
        OpKind::Binary(BinaryOp::Lt)
    } else     if op == "<="@ {
        OpKind::Binary(BinaryOp::Lte)
    } else     if op == "within"@ {
        OpKind::Raw(RawOp::Within)
    } else     if op == "+"@ {
        OpKind::Variadic(VariadicOp::Add)
    } else     if op == "*"@ {
        OpKind::Variadic(VariadicOp::Mul)
    } else     if op == "-"@ {
        OpKind::Sub
    } else     if op == "/"@ {
        OpKind::Binary(BinaryOp::Div)
    } else     if op == "%"@ {
        OpKind::Binary(BinaryOp::Mod)
    } else     if op == "^"@ {
        OpKind::Binary(BinaryOp::Pow)
    } else     if op == "sqrt"@ {
        OpKind::Unary(UnaryOp::Sqrt)
    } else     if op == "abs"@ {
        OpKind::Unary(UnaryOp::Abs)
    } else     if op == "ceil"@ {
        OpKind::Unary(UnaryOp::Ceil)
    } else     if op == "floor"@ {
        OpKind::Unary(UnaryOp::Floor)
    } else     if op == "round"@ {
        OpKind::Unary(UnaryOp::Round)
    } else     if op == "min"@ {
        OpKind::Variadic(VariadicOp::Min)
    } else     if op == "max"@ {
        OpKind::Variadic(VariadicOp::Max)
    } else     if op == "log2"@ {
        OpKind::Unary(UnaryOp::Log2)
    } else     if op == "log10"@ {
        OpKind::Unary(UnaryOp::Log10)
    } else     if op == "ln"@ {
        OpKind::Unary(UnaryOp::Ln)
    } else     if op == "sin"@ {
        OpKind::Unary(UnaryOp::Sin)
    } else     if op == "cos"@ {
        OpKind::Unary(UnaryOp::Cos)
    } else     if op == "tan"@ {
        OpKind::Unary(UnaryOp::Tan)
    } else     if op == "asin"@ {
        OpKind::Unary(UnaryOp::Asin)
    } else     if op == "acos"@ {
        OpKind::Unary(UnaryOp::Acos)
    } else     if op == "atan"@ {
        OpKind::Unary(UnaryOp::Atan)
    } else     if op == "ln2"@ {
        OpKind::Nullary(NullaryOp::Ln2)
    } else     if op == "pi"@ {
        OpKind::Nullary(NullaryOp::Pi)
    } else     if op == "e"@ {
        OpKind::Nullary(NullaryOp::E)
    } else     if op == "distance"@ {
        OpKind::Raw(RawOp::Distance)
    } else     if op == "rgb"@ {
        OpKind::Rgb
    } else     if op == "rgba"@ {
        OpKind::Rgba
    } else     if op == "to-rgba"@ {
        OpKind::Unary(UnaryOp::ToRgba)
    } else     if op == "typeof"@ {
        OpKind::Unary(UnaryOp::TypeOf)
    } else     if op == "to-string"@ {
        OpKind::Unary(UnaryOp::ToString)
    } else     if op == "to-number"@ {
        OpKind::Variadic(VariadicOp::ToNumber)
    } else     if op == "to-boolean"@ {
        OpKind::Unary(UnaryOp::ToBoolean)
    } else     if op == "to-color"@ {
        OpKind::Variadic(VariadicOp::ToColor)
    } else     if op == "number"@ {
        OpKind::Variadic(VariadicOp::NumberAssertion)
    } else     if op == "string"@ {
        OpKind::Variadic(VariadicOp::StringAssertion)
    } else     if op == "boolean"@ {
        OpKind::Variadic(VariadicOp::BooleanAssertion)
    } else     if op == "object"@ {
        OpKind::Variadic(VariadicOp::ObjectAssertion)
    } else     if op == "array"@ {
        OpKind::ArrayAssertion
    } else     if op == "collator"@ {
        OpKind::Raw(RawOp::Collator)
    } else     if op == "format"@ {
        OpKind::Format
    } else     if op == "image"@ {
        OpKind::Unary(UnaryOp::Image)
    } else     if op == "number-format"@ {
        OpKind::NumberFormat
    } else     if op == "feature-state"@ {
        OpKind::Unary(UnaryOp::FeatureState)
    } else     if op == "geometry-type"@ {
        OpKind::Nullary(NullaryOp::GeometryType)
    } else     if op == "id"@ {
        OpKind::Nullary(NullaryOp::Id)
    } else     if op == "properties"@ {
        OpKind::Nullary(NullaryOp::Properties)
    } else     if op == "accumulated"@ {
        OpKind::Nullary(NullaryOp::Accumulated)
    } else     if op == "line-progress"@ {
        OpKind::Nullary(NullaryOp::LineProgress)
    } else     if op == "zoom"@ {
        OpKind::Nullary(NullaryOp::Zoom)
    } else     if op == "heatmap-density"@ {
        OpKind::Nullary(NullaryOp::HeatmapDensity)
    } else     if op == "elevation"@ {
        OpKind::Nullary(NullaryOp::Elevation)
    } else     if op == "upcase"@ {
        OpKind::Unary(UnaryOp::Upcase)
    } else     if op == "downcase"@ {
        OpKind::Unary(UnaryOp::Downcase)
    } else     if op == "concat"@ {
        OpKind::Variadic(VariadicOp::Concat)
    } else     if op == "is-supported-script"@ {
        OpKind::Unary(UnaryOp::IsSupportedScript)
    } else     if op == "resolved-locale"@ {
        OpKind::Unary(UnaryOp::ResolvedLocale)
    } else     if op == "split"@ {
        OpKind::Binary(BinaryOp::Split)
    } else     if op == "join"@ {
        OpKind::Binary(BinaryOp::Join)
    } else {
        OpKind::Unknown
    }
}

/// The kind of the operator named `op`.
pub fn op_kind_of(op: &str) -> (k: OpKind)
    ensures
        k == op_kind(op@),
        kind_name(k, op@) == op@,
{
    reveal(op_kind);
    if str_eq(op, "literal") {
        return OpKind::Raw(RawOp::Literal);
    }
    if str_eq(op, "let") {
        return OpKind::Let;
    }
    if str_eq(op, "var") {
        return OpKind::Var;
    }
    if str_eq(op, "step") {
        return OpKind::Step;
    }
    if str_eq(op, "interpolate") {
        return OpKind::Interpolate(InterpolateSpace::Plain);
    }
    if str_eq(op, "interpolate-hcl") {
        return OpKind::Interpolate(InterpolateSpace::Hcl);
    }
    if str_eq(op, "interpolate-lab") {
        return OpKind::Interpolate(InterpolateSpace::Lab);
    }
    if str_eq(op, "get") {
        return OpKind::Get;
    }
    if str_eq(op, "has") {
        return OpKind::Has(false);
    }
    if str_eq(op, "!has") {
        return OpKind::Has(true);
    }
    if str_eq(op, "at") {
        return OpKind::Binary(BinaryOp::At);
    }
    if str_eq(op, "in") {
        return OpKind::In(false);
    }
    if str_eq(op, "!in") {
        return OpKind::In(true);
    }
    if str_eq(op, "index-of") {
        return OpKind::IndexOf;
    }
    if str_eq(op, "slice") {
        return OpKind::Slice;
    }
    if str_eq(op, "length") {
        return OpKind::Unary(UnaryOp::Length);
    }
    if str_eq(op, "global-state") {
        return OpKind::Unary(UnaryOp::GlobalState);
    }
    if str_eq(op, "case") {
        return OpKind::Case;
    }
    if str_eq(op, "match") {
        return OpKind::Match;
    }
    if str_eq(op, "coalesce") {
        return OpKind::Variadic(VariadicOp::Coalesce);
    }
    if str_eq(op, "all") {
        return OpKind::Variadic(VariadicOp::All);
    }
    if str_eq(op, "any") {
        return OpKind::Variadic(VariadicOp::Any);
    }
    if str_eq(op, "!") {
        return OpKind::Unary(UnaryOp::Not);
    }
    if str_eq(op, "==") {
        return OpKind::Binary(BinaryOp::Eq);
    }
    if str_eq(op, "!=") {
        return OpKind::Binary(BinaryOp::Ne);
    }
    if str_eq(op, ">") {
        return OpKind::Binary(BinaryOp::Gt);
    }
    if str_eq(op, ">=") {
        return OpKind::Binary(BinaryOp::Gte);
    }
    if str_eq(op, "<") {
        return OpKind::Binary(BinaryOp::Lt);
    }
    if str_eq(op, "<=") {
        return OpKind::Binary(BinaryOp::Lte);
    }
    if str_eq(op, "within") {
        return OpKind::Raw(RawOp::Within);
    }
    if str_eq(op, "+") {
        return OpKind::Variadic(VariadicOp::Add);
    }
    if str_eq(op, "*") {
        return OpKind::Variadic(VariadicOp::Mul);
    }
    if str_eq(op, "-") {
        return OpKind::Sub;
    }
    if str_eq(op, "/") {
        return OpKind::Binary(BinaryOp::Div);
    }
    if str_eq(op, "%") {
        return OpKind::Binary(BinaryOp::Mod);
    }
    if str_eq(op, "^") {
        return OpKind::Binary(BinaryOp::Pow);
    }
    if str_eq(op, "sqrt") {
        return OpKind::Unary(UnaryOp::Sqrt);
    }
    if str_eq(op, "abs") {
        return OpKind::Unary(UnaryOp::Abs);
    }
    if str_eq(op, "ceil") {
        return OpKind::Unary(UnaryOp::Ceil);
    }
    if str_eq(op, "floor") {
        return OpKind::Unary(UnaryOp::Floor);
    }
    if str_eq(op, "round") {
        return OpKind::Unary(UnaryOp::Round);
    }
    if str_eq(op, "min") {
        return OpKind::Variadic(VariadicOp::Min);
    }
    if str_eq(op, "max") {
        return OpKind::Variadic(VariadicOp::Max);
    }
    if str_eq(op, "log2") {
        return OpKind::Unary(UnaryOp::Log2);
    }
    if str_eq(op, "log10") {
        return OpKind::Unary(UnaryOp::Log10);
    }
    if str_eq(op, "ln") {
        return OpKind::Unary(UnaryOp::Ln);
    }
    if str_eq(op, "sin") {
        return OpKind::Unary(UnaryOp::Sin);
    }
    if str_eq(op, "cos") {
        return OpKind::Unary(UnaryOp::Cos);
    }
    if str_eq(op, "tan") {
        return OpKind::Unary(UnaryOp::Tan);
    }
    if str_eq(op, "asin") {
        return OpKind::Unary(UnaryOp::Asin);
    }
    if str_eq(op, "acos") {
        return OpKind::Unary(UnaryOp::Acos);
    }
    if str_eq(op, "atan") {
        return OpKind::Unary(UnaryOp::Atan);
    }
    if str_eq(op, "ln2") {
        return OpKind::Nullary(NullaryOp::Ln2);
    }
    if str_eq(op, "pi") {
        return OpKind::Nullary(NullaryOp::Pi);
    }
    if str_eq(op, "e") {
        return OpKind::Nullary(NullaryOp::E);
    }
    if str_eq(op, "distance") {
        return OpKind::Raw(RawOp::Distance);
    }
    if str_eq(op, "rgb") {
        return OpKind::Rgb;
    }
    if str_eq(op, "rgba") {
        return OpKind::Rgba;
    }
    if str_eq(op, "to-rgba") {
        return OpKind::Unary(UnaryOp::ToRgba);
    }
    if str_eq(op, "typeof") {
        return OpKind::Unary(UnaryOp::TypeOf);
    }
    if str_eq(op, "to-string") {
        return OpKind::Unary(UnaryOp::ToString);
    }
    if str_eq(op, "to-number") {
        return OpKind::Variadic(VariadicOp::ToNumber);
    }
    if str_eq(op, "to-boolean") {
        return OpKind::Unary(UnaryOp::ToBoolean);
    }
    if str_eq(op, "to-color") {
        return OpKind::Variadic(VariadicOp::ToColor);
    }
    if str_eq(op, "number") {
        return OpKind::Variadic(VariadicOp::NumberAssertion);
    }
    if str_eq(op, "string") {
        return OpKind::Variadic(VariadicOp::StringAssertion);
    }
    if str_eq(op, "boolean") {
        return OpKind::Variadic(VariadicOp::BooleanAssertion);
    }
    if str_eq(op, "object") {
        return OpKind::Variadic(VariadicOp::ObjectAssertion);
    }
    if str_eq(op, "array") {
        return OpKind::ArrayAssertion;
    }
    if str_eq(op, "collator") {
        return OpKind::Raw(RawOp::Collator);
    }
    if str_eq(op, "format") {
        return OpKind::Format;
    }
    if str_eq(op, "image") {
        return OpKind::Unary(UnaryOp::Image);
    }
    if str_eq(op, "number-format") {
        return OpKind::NumberFormat;
    }
    if str_eq(op, "feature-state") {
        return OpKind::Unary(UnaryOp::FeatureState);
    }
    if str_eq(op, "geometry-type") {
        return OpKind::Nullary(NullaryOp::GeometryType);
    }
    if str_eq(op, "id") {
        return OpKind::Nullary(NullaryOp::Id);
    }
    if str_eq(op, "properties") {
        return OpKind::Nullary(NullaryOp::Properties);
    }
    if str_eq(op, "accumulated") {
        return OpKind::Nullary(NullaryOp::Accumulated);
    }
    if str_eq(op, "line-progress") {
        return OpKind::Nullary(NullaryOp::LineProgress);
    }
    if str_eq(op, "zoom") {
        return OpKind::Nullary(NullaryOp::Zoom);
    }
    if str_eq(op, "heatmap-density") {
        return OpKind::Nullary(NullaryOp::HeatmapDensity);
    }
    if str_eq(op, "elevation") {
        return OpKind::Nullary(NullaryOp::Elevation);
    }
    if str_eq(op, "upcase") {
        return OpKind::Unary(UnaryOp::Upcase);
    }
    if str_eq(op, "downcase") {
        return OpKind::Unary(UnaryOp::Downcase);
    }
    if str_eq(op, "concat") {
        return OpKind::Variadic(VariadicOp::Concat);
    }
    if str_eq(op, "is-supported-script") {
        return OpKind::Unary(UnaryOp::IsSupportedScript);
    }
    if str_eq(op, "resolved-locale") {
        return OpKind::Unary(UnaryOp::ResolvedLocale);
    }
    if str_eq(op, "split") {
        return OpKind::Binary(BinaryOp::Split);
    }
    if str_eq(op, "join") {
        return OpKind::Binary(BinaryOp::Join);
    }
    OpKind::Unknown
}

/// The operator of an expression's shape; none for a literal, bare or written
/// `["literal", value]`.
pub open spec fn operator_of(t: MlTree) -> Option<Seq<char>> {
    match t {
        MlTree::Literal(_) => None,
        MlTree::Raw(RawOp::Literal, _) => None,
        MlTree::Let { .. } => Some("let"@),
        MlTree::Var(_) => Some("var"@),
        MlTree::Step { .. } => Some("step"@),
        MlTree::Interpolate { space, .. } => Some(space.name()@),
        MlTree::Get { .. } => Some("get"@),
        MlTree::Has { negated, .. } => Some(if negated { "!has"@ } else { "has"@ }),
        MlTree::In { negated, .. } => Some(if negated { "!in"@ } else { "in"@ }),
        MlTree::IndexOf { .. } => Some("index-of"@),
        MlTree::Slice { .. } => Some("slice"@),
        MlTree::Case { .. } => Some("case"@),
        MlTree::Match { .. } => Some("match"@),
        MlTree::Unary(op, _) => Some(op.name()@),
        MlTree::Binary(op, _, _) => Some(op.name()@),
        MlTree::Variadic(op, _) => Some(op.name()@),
        MlTree::Nullary(op) => Some(op.name()@),
        MlTree::Raw(op, _) => Some(op.name()@),
        MlTree::Sub(_, _) => Some("-"@),
        MlTree::Rgb(_, _, _) => Some("rgb"@),
        MlTree::Rgba(_, _, _, _) => Some("rgba"@),
        MlTree::ArrayAssertion { .. } => Some("array"@),
        MlTree::Format(_) => Some("format"@),
        MlTree::NumberFormat { .. } => Some("number-format"@),
        MlTree::Unknown { operator, .. } => Some(operator@),
    }
}

impl MlExpr {
    /// The operator name of this expression, or `None` for a literal
    /// (a bare value or one written `["literal", value]`).
    pub fn operator(&self) -> (r: Option<&str>)
        ensures
            r is None <==> operator_of(tree_of(*self)) is None,
            r matches Some(s) ==> operator_of(tree_of(*self)) == Some(s@),
    {
        reveal(tree_of);
        match self {
            MlExpr::Let { .. } => Some("let"),
            MlExpr::Var(_) => Some("var"),
            MlExpr::Step { .. } => Some("step"),
            MlExpr::Interpolate { .. } => Some("interpolate"),
            MlExpr::InterpolateHcl { .. } => Some("interpolate-hcl"),
            MlExpr::InterpolateLab { .. } => Some("interpolate-lab"),
            MlExpr::Get { .. } => Some("get"),
            MlExpr::Has { .. } => Some("has"),
            MlExpr::NotHas { .. } => Some("!has"),
            MlExpr::In { .. } => Some("in"),
            MlExpr::NotIn { .. } => Some("!in"),
            MlExpr::IndexOf { .. } => Some("index-of"),
            MlExpr::Slice { .. } => Some("slice"),
            MlExpr::Case { .. } => Some("case"),
            MlExpr::Match { .. } => Some("match"),
            MlExpr::Sub(_, _) => Some("-"),
            MlExpr::Rgb(_, _, _) => Some("rgb"),
            MlExpr::Rgba(_, _, _, _) => Some("rgba"),
            MlExpr::ArrayAssertion { .. } => Some("array"),
            MlExpr::Format(_) => Some("format"),
            MlExpr::NumberFormat { .. } => Some("number-format"),
            MlExpr::Length(_) => Some("length"),
            MlExpr::GlobalState(_) => Some("global-state"),
            MlExpr::Not(_) => Some("!"),
            MlExpr::Sqrt(_) => Some("sqrt"),
            MlExpr::Abs(_) => Some("abs"),
            MlExpr::Ceil(_) => Some("ceil"),
            MlExpr::Floor(_) => Some("floor"),
            MlExpr::Round(_) => Some("round"),
            MlExpr::Log2(_) => Some("log2"),
            MlExpr::Log10(_) => Some("log10"),
            MlExpr::Ln(_) => Some("ln"),
            MlExpr::Sin(_) => Some("sin"),
            MlExpr::Cos(_) => Some("cos"),
            MlExpr::Tan(_) => Some("tan"),
            MlExpr::Asin(_) => Some("asin"),
            MlExpr::Acos(_) => Some("acos"),
            MlExpr::Atan(_) => Some("atan"),
            MlExpr::ToRgba(_) => Some("to-rgba"),
            MlExpr::TypeOf(_) => Some("typeof"),
            MlExpr::ToString(_) => Some("to-string"),
            MlExpr::ToBoolean(_) => Some("to-boolean"),
            MlExpr::Image(_) => Some("image"),
            MlExpr::FeatureState(_) => Some("feature-state"),
            MlExpr::Upcase(_) => Some("upcase"),
            MlExpr::Downcase(_) => Some("downcase"),
            MlExpr::IsSupportedScript(_) => Some("is-supported-script"),
            MlExpr::ResolvedLocale(_) => Some("resolved-locale"),
            MlExpr::At { .. } => Some("at"),
            MlExpr::Eq(_, _) => Some("=="),
            MlExpr::Ne(_, _) => Some("!="),
            MlExpr::Gt(_, _) => Some(">"),
            MlExpr::Gte(_, _) => Some(">="),
            MlExpr::Lt(_, _) => Some("<"),
            MlExpr::Lte(_, _) => Some("<="),
            MlExpr::Div(_, _) => Some("/"),
            MlExpr::Mod(_, _) => Some("%"),
            MlExpr::Pow(_, _) => Some("^"),
            MlExpr::Split(_, _) => Some("split"),
            MlExpr::Join(_, _) => Some("join"),
            MlExpr::Coalesce(_) => Some("coalesce"),
            MlExpr::All(_) => Some("all"),
            MlExpr::Any(_) => Some("any"),
            MlExpr::Add(_) => Some("+"),
            MlExpr::Mul(_) => Some("*"),
            MlExpr::Min(_) => Some("min"),
            MlExpr::Max(_) => Some("max"),
            MlExpr::ToNumber(_) => Some("to-number"),
            MlExpr::ToColor(_) => Some("to-color"),
            MlExpr::NumberAssertion(_) => Some("number"),
            MlExpr::StringAssertion(_) => Some("string"),
            MlExpr::BooleanAssertion(_) => Some("boolean"),
            MlExpr::ObjectAssertion(_) => Some("object"),
            MlExpr::Concat(_) => Some("concat"),
            MlExpr::Ln2 => Some("ln2"),
            MlExpr::Pi => Some("pi"),
            MlExpr::E => Some("e"),
            MlExpr::GeometryType => Some("geometry-type"),
            MlExpr::Id => Some("id"),
            MlExpr::Properties => Some("properties"),
            MlExpr::Accumulated => Some("accumulated"),
            MlExpr::LineProgress => Some("line-progress"),
            MlExpr::Zoom => Some("zoom"),
            MlExpr::HeatmapDensity => Some("heatmap-density"),
            MlExpr::Elevation => Some("elevation"),
            MlExpr::Within(_) => Some("within"),
            MlExpr::Distance(_) => Some("distance"),
            MlExpr::LiteralExpr(_) => None,
            MlExpr::Collator(_) => Some("collator"),
            MlExpr::Unknown { operator, .. } => Some(operator.as_str()),
            MlExpr::Literal(_) => None,
        }
    }
}

/// Why an interpolation curve could not be read.
#[derive(Debug, PartialEq)]
pub enum InterpolationError {
    /// The curve is not a JSON array.
    NotAnArray(JsonValue),
    /// The array ends before the element at this index.
    MissingElement(usize),
    /// The curve's name is not a string.
    NameNotString(JsonValue),
    /// The element at `index` is not a number.
    NotANumber { index: usize, value: JsonValue },
    /// The name is none of `linear`, `exponential`, `cubic-bezier`.
    UnknownName(String),
    /// The array has more elements than the curve takes; holds the array's length.
    TooManyElements(usize),
}

/// Why a JSON array is not a valid expression.
#[derive(Debug, PartialEq)]
pub enum MlExprError {
    /// The expression array is empty.
    EmptyArray,
    /// The operator `op` expected an argument at `position` but the array ended.
    MissingArgument { op: &'static str, position: usize },
    /// The operator `op` does not take `count` arguments.
    ArgumentCount { op: &'static str, count: usize },
    /// A `let` binding name is not a string.
    LetNameNotString(JsonValue),
    /// The name of a `var` is not a string.
    VarNameNotString(JsonValue),
    /// The property of a `get` is not a string.
    GetPropertyNotString,
    /// The curve of an interpolation could not be read.
    BadInterpolation { op: &'static str, cause: InterpolationError },
    /// The stop arguments of `op` do not come in pairs; holds their count.
    UnpairedStops { op: &'static str, count: usize },
    /// A stop input is not a number.
    StopInputNotNumber(JsonValue),
    /// A top-level expression is not a JSON array.
    NotAnArray,
}

/// The number at index `i` of a curve array.
pub open spec fn spec_curve_number(s: Seq<JsonValue>, i: int) -> Result<Num, InterpolationError> {
    if i >= s.len() {
        Err(InterpolationError::MissingElement(i as usize))
    } else {
        match s[i] {
            JsonValue::Number(n) => Ok(n.value),
            other => Err(InterpolationError::NotANumber { index: i as usize, value: other }),
        }
    }
}

/// The curve that the elements of a curve array describe.
pub open spec fn spec_curve(s: Seq<JsonValue>) -> Result<Interpolation, InterpolationError> {
    if s.len() == 0 {
        Err(InterpolationError::MissingElement(0))
    } else {
        match s[0] {
            JsonValue::String(name) => if name@ == "linear"@ {
                Ok(Interpolation::Linear)
            } else if name@ == "exponential"@ {
                match spec_curve_number(s, 1) {
                    Err(e) => Err(e),
                    Ok(base) => if s.len() > 2 {
                        Err(InterpolationError::TooManyElements(s.len() as usize))
                    } else {
                        Ok(Interpolation::Exponential { base })
                    },
                }
            } else if name@ == "cubic-bezier"@ {
                match spec_curve_number(s, 1) {
                    Err(e) => Err(e),
                    Ok(x1) => match spec_curve_number(s, 2) {
                        Err(e) => Err(e),
                        Ok(y1) => match spec_curve_number(s, 3) {
                            Err(e) => Err(e),
                            Ok(x2) => match spec_curve_number(s, 4) {
                                Err(e) => Err(e),
                                Ok(y2) => if s.len() > 5 {
                                    Err(InterpolationError::TooManyElements(s.len() as usize))
                                } else {
                                    Ok(Interpolation::CubicBezier { x1, y1, x2, y2 })
                                },
                            },
                        },
                    },
                }
            } else {
                Err(InterpolationError::UnknownName(name))
            },
            other => Err(InterpolationError::NameNotString(other)),
        }
    }
}

/// A curve array reads as the curve it names, with its parameters in the order written:
/// `["linear"]` as linear, `["exponential", b]` as exponential with base `b`, and
/// `["cubic-bezier", x1, y1, x2, y2]` as the Bézier curve with control points `(x1, y1)` and
/// `(x2, y2)`.
pub proof fn law_curves_read_as_named(s: Seq<JsonValue>)
    ensures
        s.len() >= 1 && s[0] is String && s[0]->String_0@ == "linear"@ ==> spec_curve(s) == Ok::<Interpolation, InterpolationError>(
            Interpolation::Linear,
        ),
        s.len() == 2 && s[0] is String && s[0]->String_0@ == "exponential"@ && s[1] is Number
            ==> spec_curve(s) == Ok::<Interpolation, InterpolationError>(
            Interpolation::Exponential { base: s[1]->Number_0.value },
        ),
        s.len() == 5 && s[0] is String && s[0]->String_0@ == "cubic-bezier"@ && s[1] is Number
            && s[2] is Number && s[3] is Number && s[4] is Number ==> spec_curve(s) == Ok::<
            Interpolation,
            InterpolationError,
        >(
            Interpolation::CubicBezier {
                x1: s[1]->Number_0.value,
                y1: s[2]->Number_0.value,
                x2: s[3]->Number_0.value,
                y2: s[4]->Number_0.value,
            },
        ),
{
    reveal_strlit("linear");
    reveal_strlit("exponential");
    reveal_strlit("cubic-bezier");
    assert("exponential"@.len() != "linear"@.len());
    assert("cubic-bezier"@.len() != "linear"@.len());
    assert("cubic-bezier"@.len() != "exponential"@.len());
}

/// The curve that a JSON value describes.
pub open spec fn spec_interpolation(v: JsonValue) -> Result<Interpolation, InterpolationError> {
    match v {
        JsonValue::Array(a) => spec_curve(a@),
        other => Err(InterpolationError::NotAnArray(other)),
    }
}

pub open spec fn tree_result(r: Result<MlExpr, MlExprError>) -> Result<MlTree, MlExprError> {
    match r {
        Ok(e) => Ok(tree_of(e)),
        Err(e) => Err(e),
    }
}

pub open spec fn box_result(r: Result<Box<MlExpr>, MlExprError>) -> Result<MlTree, MlExprError> {
    match r {
        Ok(e) => Ok(tree_of(*e)),
        Err(e) => Err(e),
    }
}

pub open spec fn boxed(o: Option<MlTree>) -> Option<Box<MlTree>> {
    match o {
        Some(t) => Some(Box::new(t)),
        None => None,
    }
}

/// The expression that a JSON value is: an array is read as an operator and
/// its arguments, any other value is a literal.
#[verifier::opaque]
pub open spec fn spec_expr(v: JsonValue) -> Result<MlTree, MlExprError>
    decreases v, 0nat,
{
    match v {
        JsonValue::Array(arr) => spec_expr_array(arr),
        other => Ok(MlTree::Literal(other)),
    }
}

/// The expression that a JSON array is.
pub open spec fn spec_expr_array(arr: Vec<JsonValue>) -> Result<MlTree, MlExprError>
    decreases arr, 4nat,
{
    if arr@.len() == 0 {
        Err(MlExprError::EmptyArray)
    } else {
        match arr@[0] {
            JsonValue::String(op) => spec_operation(op, arr@.drop_first()),
            _ => Ok(MlTree::Literal(JsonValue::Array(arr))),
        }
    }
}

/// The arguments after the first one.
pub open spec fn rest(args: Seq<JsonValue>) -> Seq<JsonValue> {
    if args.len() == 0 {
        args
    } else {
        args.drop_first()
    }
}

/// The argument at index `i` as an expression.
pub open spec fn arg_expr(args: Seq<JsonValue>, i: int) -> Result<MlTree, MlExprError>
    decreases args, 0nat,
{
    if 0 <= i < args.len() {
        spec_expr(args[i])
    } else {
        Err(MlExprError::EmptyArray)
    }
}

/// The arguments that the parsers read by position, read as [`spec_expr`] reads them.
proof fn lemma_arg_exprs(args: Seq<JsonValue>)
    ensures
        args.len() > 0 ==> arg_expr(args, 0) == spec_expr(args[0]),
        args.len() > 1 ==> arg_expr(args, 1) == spec_expr(args[1]),
        args.len() > 2 ==> arg_expr(args, 2) == spec_expr(args[2]),
        args.len() > 0 ==> arg_expr(args, args.len() - 1) == spec_expr(args[args.len() - 1]),
{
    reveal(spec_expr);
}

/// The first argument as an expression; `position` and `op` name it when it is missing.
pub open spec fn spec_take(args: Seq<JsonValue>, position: usize, op: &'static str) -> Result<
    MlTree,
    MlExprError,
>
    decreases args, 1nat,
{
    if args.len() == 0 {
        Err(MlExprError::MissingArgument { op, position })
    } else {
        arg_expr(args, 0)
    }
}

/// The first argument as an expression, where there is one.
pub open spec fn spec_take_opt(args: Seq<JsonValue>) -> Result<Option<MlTree>, MlExprError>
    decreases args, 1nat,
{
    if args.len() == 0 {
        Ok(None)
    } else {
        match arg_expr(args, 0) {
            Err(e) => Err(e),
            Ok(t) => Ok(Some(t)),
        }
    }
}

/// All arguments as expressions, in order; the first failure is the result.
pub open spec fn spec_list(args: Seq<JsonValue>) -> Result<Seq<MlTree>, MlExprError>
    decreases args, 1nat,
{
    if args.len() == 0 {
        Ok(Seq::empty())
    } else {
        match arg_expr(args, 0) {
            Err(e) => Err(e),
            Ok(t) => match spec_list(args.drop_first()) {
                Err(e) => Err(e),
                Ok(rest) => Ok(seq![t] + rest),
            },
        }
    }
}

/// The stop arguments of `op`: an even number of them, read as `(input, output)` pairs.
pub open spec fn spec_stop_pairs(args: Seq<JsonValue>, op: &'static str) -> Result<Seq<(Num, MlTree)>, MlExprError>
    decreases args, 2nat,
{
    if args.len() % 2 != 0 {
        Err(MlExprError::UnpairedStops { op, count: args.len() as usize })
    } else {
        spec_stops(args)
    }
}

/// `(input, output)` stop pairs, read while two arguments are left.
pub open spec fn spec_stops(args: Seq<JsonValue>) -> Result<Seq<(Num, MlTree)>, MlExprError>
    decreases args, 1nat,
{
    if args.len() < 2 {
        Ok(Seq::empty())
    } else {
        match args[0] {
            JsonValue::Number(n) => match arg_expr(args, 1) {
                Err(e) => Err(e),
                Ok(t) => match spec_stops(args.subrange(2, args.len() as int)) {
                    Err(e) => Err(e),
                    Ok(rest) => Ok(seq![(n.value, t)] + rest),
                },
            },
            other => Err(MlExprError::StopInputNotNumber(other)),
        }
    }
}

/// Stop pairs read from plain arguments (no arrays among them), an even number of them, each
/// input a number: each pair in order, the input's value and the output as a literal.
proof fn lemma_stops_plain(args: Seq<JsonValue>)
    requires
        forall|i: int| 0 <= i < args.len() ==> !(#[trigger] args[i] is Array),
        args.len() % 2 == 0,
        forall|k: int| 0 <= k < args.len() / 2 ==> #[trigger] args[2 * k] is Number,
    ensures
        spec_stops(args) == Ok::<Seq<(Num, MlTree)>, MlExprError>(
            Seq::new(
                (args.len() / 2) as nat,
                |k: int| (args[2 * k]->Number_0.value, MlTree::Literal(args[2 * k + 1])),
            ),
        ),
    decreases args.len(),
{
    reveal(spec_expr);
    let s = Seq::new(
        (args.len() / 2) as nat,
        |k: int| (args[2 * k]->Number_0.value, MlTree::Literal(args[2 * k + 1])),
    );
    if args.len() >= 2 {
        let tail = args.subrange(2, args.len() as int);
        assert forall|i: int| 0 <= i < tail.len() implies !(#[trigger] tail[i] is Array) by {
            assert(tail[i] == args[i + 2]);
        }
        assert forall|k: int| 0 <= k < tail.len() / 2 implies #[trigger] tail[2 * k] is Number by {
            assert(tail[2 * k] == args[2 * (k + 1)]);
        }
        lemma_stops_plain(tail);
        assert(args[2 * 0int] is Number);
        assert(!(args[1] is Array));
        let t = Seq::new(
            (tail.len() / 2) as nat,
            |k: int| (tail[2 * k]->Number_0.value, MlTree::Literal(tail[2 * k + 1])),
        );
        assert forall|k: int| 0 <= k < t.len() implies t[k] == s[k + 1] by {
            assert(tail[2 * k] == args[2 * k + 2]);
            assert(tail[2 * k + 1] == args[2 * k + 3]);
        }
        assert(seq![(args[0]->Number_0.value, MlTree::Literal(args[1]))] + t =~= s);
        assert(arg_expr(args, 1) == Ok::<MlTree, MlExprError>(MlTree::Literal(args[1])));
        assert(spec_stops(tail) == Ok::<Seq<(Num, MlTree)>, MlExprError>(t));
    } else {
        assert(s =~= Seq::empty());
    }
}

/// The stop arguments of an operator, when they are plain values (no arrays among them): an
/// odd number of them is an unpaired-stops error; an even number whose inputs are all numbers
/// reads as the pairs in order, the `k`-th pair being the arguments at `2k` and `2k + 1`.
pub proof fn law_stop_pairs_indexed(args: Seq<JsonValue>, op: &'static str)
    requires
        forall|i: int| 0 <= i < args.len() ==> !(#[trigger] args[i] is Array),
    ensures
        args.len() % 2 != 0 ==> spec_stop_pairs(args, op) == Err::<Seq<(Num, MlTree)>, MlExprError>(
            MlExprError::UnpairedStops { op, count: args.len() as usize },
        ),
        args.len() % 2 == 0 && (forall|k: int| 0 <= k < args.len() / 2 ==> #[trigger] args[2 * k] is Number)
            ==> spec_stop_pairs(args, op) == Ok::<Seq<(Num, MlTree)>, MlExprError>(
            Seq::new(
                (args.len() / 2) as nat,
                |k: int| (args[2 * k]->Number_0.value, MlTree::Literal(args[2 * k + 1])),
            ),
        ),
{
    if args.len() % 2 == 0 && (forall|k: int| 0 <= k < args.len() / 2 ==> #[trigger] args[2 * k] is Number) {
        lemma_stops_plain(args);
    }
}

/// `(name, value)` pairs of a `let`, read while two arguments are left.
pub open spec fn spec_bindings(args: Seq<JsonValue>) -> Result<Seq<(String, MlTree)>, MlExprError>
    decreases args, 1nat,
{
    if args.len() < 2 {
        Ok(Seq::empty())
    } else {
        match args[0] {
            JsonValue::String(name) => match arg_expr(args, 1) {
                Err(e) => Err(e),
                Ok(t) => match spec_bindings(args.subrange(2, args.len() as int)) {
                    Err(e) => Err(e),
                    Ok(rest) => Ok(seq![(name, t)] + rest),
                },
            },
            other => Err(MlExprError::LetNameNotString(other)),
        }
    }
}

/// `(condition, output)` pairs of a `case`, read while two arguments are left.
pub open spec fn spec_case_branches(args: Seq<JsonValue>) -> Result<Seq<(MlTree, MlTree)>, MlExprError>
    decreases args, 1nat,
{
    if args.len() < 2 {
        Ok(Seq::empty())
    } else {
        match arg_expr(args, 0) {
            Err(e) => Err(e),
            Ok(c) => match arg_expr(args, 1) {
                Err(e) => Err(e),
                Ok(t) => match spec_case_branches(args.subrange(2, args.len() as int)) {
                    Err(e) => Err(e),
                    Ok(rest) => Ok(seq![(c, t)] + rest),
                },
            },
        }
    }
}

/// `(labels, output)` pairs of a `match`, read while two arguments are left.
pub open spec fn spec_match_branches(args: Seq<JsonValue>) -> Result<Seq<(JsonValue, MlTree)>, MlExprError>
    decreases args, 1nat,
{
    if args.len() < 2 {
        Ok(Seq::empty())
    } else {
        match arg_expr(args, 1) {
            Err(e) => Err(e),
            Ok(t) => match spec_match_branches(args.subrange(2, args.len() as int)) {
                Err(e) => Err(e),
                Ok(rest) => Ok(seq![(args[0], t)] + rest),
            },
        }
    }
}

/// The sections of a `format`: each input, followed by its style where the next argument is an object.
pub open spec fn spec_format(args: Seq<JsonValue>) -> Result<Seq<(MlTree, Option<JsonValue>)>, MlExprError>
    decreases args, 1nat,
{
    if args.len() == 0 {
        Ok(Seq::empty())
    } else {
        match arg_expr(args, 0) {
            Err(e) => Err(e),
            Ok(t) => if args.len() >= 2 && args[1] is Object {
                match spec_format(args.subrange(2, args.len() as int)) {
                    Err(e) => Err(e),
                    Ok(rest) => Ok(seq![(t, Some(args[1]))] + rest),
                }
            } else {
                match spec_format(args.drop_first()) {
                    Err(e) => Err(e),
                    Ok(rest) => Ok(seq![(t, None)] + rest),
                }
            },
        }
    }
}

pub open spec fn spec_let(args: Seq<JsonValue>) -> Result<MlTree, MlExprError>
    decreases args, 2nat,
{
    let n = args.len();
    if n < 3 || n % 2 == 0 {
        Err(MlExprError::ArgumentCount { op: "let", count: n as usize })
    } else {
        match arg_expr(args, n - 1) {
            Err(e) => Err(e),
            Ok(body) => match spec_bindings(args.drop_last()) {
                Err(e) => Err(e),
                Ok(bindings) => Ok(MlTree::Let { bindings, body: Box::new(body) }),
            },
        }
    }
}

pub open spec fn spec_var(args: Seq<JsonValue>) -> Result<MlTree, MlExprError> {
    if args.len() == 0 {
        Err(MlExprError::MissingArgument { op: "var", position: 1 })
    } else {
        match args[0] {
            JsonValue::String(name) => Ok(MlTree::Var(name)),
            other => Err(MlExprError::VarNameNotString(other)),
        }
    }
}

pub open spec fn spec_step(args: Seq<JsonValue>) -> Result<MlTree, MlExprError>
    decreases args, 2nat,
{
    let n = args.len();
    if n < 2 {
        Err(MlExprError::ArgumentCount { op: "step", count: n as usize })
    } else {
        match arg_expr(args, 0) {
            Err(e) => Err(e),
            Ok(input) => match arg_expr(args, 1) {
                Err(e) => Err(e),
                Ok(default_output) => match spec_stop_pairs(args.subrange(2, n as int), "step") {
                    Err(e) => Err(e),
                    Ok(stops) => Ok(
                        MlTree::Step {
                            input: Box::new(input),
                            default_output: Box::new(default_output),
                            stops,
                        },
                    ),
                },
            },
        }
    }
}

pub open spec fn spec_interpolate(space: InterpolateSpace, args: Seq<JsonValue>) -> Result<
    MlTree,
    MlExprError,
>
    decreases args, 2nat,
{
    let n = args.len();
    if n < 2 {
        Err(MlExprError::ArgumentCount { op: space.name(), count: n as usize })
    } else {
        match spec_interpolation(args[0]) {
            Err(cause) => Err(MlExprError::BadInterpolation { op: space.name(), cause }),
            Ok(interpolation) => match arg_expr(args, 1) {
                Err(e) => Err(e),
                Ok(input) => match spec_stop_pairs(args.subrange(2, n as int), space.name()) {
                    Err(e) => Err(e),
                    Ok(stops) => Ok(
                        MlTree::Interpolate { space, interpolation, input: Box::new(input), stops },
                    ),
                },
            },
        }
    }
}

pub open spec fn spec_get(args: Seq<JsonValue>) -> Result<MlTree, MlExprError>
    decreases args, 2nat,
{
    if args.len() == 0 {
        Err(MlExprError::MissingArgument { op: "get", position: 1 })
    } else {
        match args[0] {
            JsonValue::String(property) => match spec_take_opt(args.drop_first()) {
                Err(e) => Err(e),
                Ok(object) => Ok(MlTree::Get { property, object: boxed(object) }),
            },
            _ => Err(MlExprError::GetPropertyNotString),
        }
    }
}

pub open spec fn spec_has(negated: bool, args: Seq<JsonValue>) -> Result<MlTree, MlExprError>
    decreases args, 2nat,
{
    match spec_take(args, 1, if negated { "!has" } else { "has" }) {
        Err(e) => Err(e),
        Ok(property) => match spec_take_opt(rest(args)) {
            Err(e) => Err(e),
            Ok(object) => Ok(
                MlTree::Has { negated, property: Box::new(property), object: boxed(object) },
            ),
        },
    }
}

pub open spec fn spec_in(negated: bool, args: Seq<JsonValue>) -> Result<MlTree, MlExprError>
    decreases args, 2nat,
{
    match spec_take(args, 1, "!in") {
        Err(e) => Err(e),
        Ok(item) => match spec_list(rest(args)) {
            Err(e) => Err(e),
            Ok(array) => Ok(MlTree::In { negated, item: Box::new(item), array }),
        },
    }
}

pub open spec fn spec_index_of(args: Seq<JsonValue>) -> Result<MlTree, MlExprError>
    decreases args, 2nat,
{
    match spec_take(args, 1, "index-of") {
        Err(e) => Err(e),
        Ok(item) => match spec_take(rest(args), 2, "index-of") {
            Err(e) => Err(e),
            Ok(array_or_string) => match spec_take_opt(rest(rest(args))) {
                Err(e) => Err(e),
                Ok(from_index) => Ok(
                    MlTree::IndexOf {
                        item: Box::new(item),
                        array_or_string: Box::new(array_or_string),
                        from_index: boxed(from_index),
                    },
                ),
            },
        },
    }
}

pub open spec fn spec_slice(args: Seq<JsonValue>) -> Result<MlTree, MlExprError>
    decreases args, 2nat,
{
    match spec_take(args, 1, "slice") {
        Err(e) => Err(e),
        Ok(array_or_string) => match spec_take(rest(args), 2, "slice") {
            Err(e) => Err(e),
            Ok(start) => match spec_take_opt(rest(rest(args))) {
                Err(e) => Err(e),
                Ok(end) => Ok(
                    MlTree::Slice {
                        array_or_string: Box::new(array_or_string),
                        start: Box::new(start),
                        end: boxed(end),
                    },
                ),
            },
        },
    }
}

pub open spec fn spec_case(args: Seq<JsonValue>) -> Result<MlTree, MlExprError>
    decreases args, 2nat,
{
    let n = args.len();
    if n < 3 || n % 2 == 0 {
        Err(MlExprError::ArgumentCount { op: "case", count: n as usize })
    } else {
        match arg_expr(args, n - 1) {
            Err(e) => Err(e),
            Ok(fallback) => match spec_case_branches(args.drop_last()) {
                Err(e) => Err(e),
                Ok(branches) => Ok(MlTree::Case { branches, fallback: Box::new(fallback) }),
            },
        }
    }
}

/// The branches read from plain arguments (no arrays among them), an even number of them:
/// each pair of arguments in order, as literals.
proof fn lemma_case_branches_plain(args: Seq<JsonValue>)
    requires
        forall|i: int| 0 <= i < args.len() ==> !(#[trigger] args[i] is Array),
        args.len() % 2 == 0,
    ensures
        spec_case_branches(args) == Ok::<Seq<(MlTree, MlTree)>, MlExprError>(
            Seq::new(
                (args.len() / 2) as nat,
                |k: int| (MlTree::Literal(args[2 * k]), MlTree::Literal(args[2 * k + 1])),
            ),
        ),
    decreases args.len(),
{
    reveal(spec_expr);
    if args.len() >= 2 {
        let tail = args.subrange(2, args.len() as int);
        assert forall|i: int| 0 <= i < tail.len() implies !(#[trigger] tail[i] is Array) by {
            assert(tail[i] == args[i + 2]);
        }
        lemma_case_branches_plain(tail);
        assert(!(args[0] is Array));
        assert(!(args[1] is Array));
        let s = Seq::new(
            (args.len() / 2) as nat,
            |k: int| (MlTree::Literal(args[2 * k]), MlTree::Literal(args[2 * k + 1])),
        );
        let t = Seq::new(
            (tail.len() / 2) as nat,
            |k: int| (MlTree::Literal(tail[2 * k]), MlTree::Literal(tail[2 * k + 1])),
        );
        assert forall|k: int| 0 <= k < t.len() implies t[k] == s[k + 1] by {
            assert(tail[2 * k] == args[2 * k + 2]);
            assert(tail[2 * k + 1] == args[2 * k + 3]);
        }
        assert(seq![(MlTree::Literal(args[0]), MlTree::Literal(args[1]))] + t =~= s);
        assert(arg_expr(args, 0) == Ok::<MlTree, MlExprError>(MlTree::Literal(args[0])));
        assert(arg_expr(args, 1) == Ok::<MlTree, MlExprError>(MlTree::Literal(args[1])));
        assert(spec_case_branches(tail) == Ok::<Seq<(MlTree, MlTree)>, MlExprError>(t));
    } else {
        assert(Seq::new(
            (args.len() / 2) as nat,
            |k: int| (MlTree::Literal(args[2 * k]), MlTree::Literal(args[2 * k + 1])),
        ) =~= Seq::empty());
    }
}

/// The arguments of a `case` that are plain values (no arrays among them) are read exactly
/// when there is an odd number of at least three: each pair, in order, is a condition and
/// its output, and the last is the fallback. Any other count is an argument-count error.
pub proof fn law_case_argument_count(args: Seq<JsonValue>)
    requires
        forall|i: int| 0 <= i < args.len() ==> !(#[trigger] args[i] is Array),
    ensures
        (spec_case(args) is Ok) == (args.len() >= 3 && args.len() % 2 == 1),
        spec_case(args) is Err ==> spec_case(args) == Err::<MlTree, MlExprError>(
            MlExprError::ArgumentCount { op: "case", count: args.len() as usize },
        ),
        spec_case(args) is Ok ==> spec_case(args) == Ok::<MlTree, MlExprError>(
            MlTree::Case {
                branches: Seq::new(
                    ((args.len() - 1) / 2) as nat,
                    |k: int| (MlTree::Literal(args[2 * k]), MlTree::Literal(args[2 * k + 1])),
                ),
                fallback: Box::new(MlTree::Literal(args[args.len() - 1])),
            },
        ),
{
    reveal(spec_expr);
    let n = args.len();
    if n >= 3 && n % 2 == 1 {
        let front = args.drop_last();
        assert forall|i: int| 0 <= i < front.len() implies !(#[trigger] front[i] is Array) by {
            assert(front[i] == args[i]);
        }
        lemma_case_branches_plain(front);
        assert(!(args[n - 1] is Array));
        let a = Seq::new(
            (front.len() / 2) as nat,
            |k: int| (MlTree::Literal(front[2 * k]), MlTree::Literal(front[2 * k + 1])),
        );
        let b = Seq::new(
            ((n - 1) / 2) as nat,
            |k: int| (MlTree::Literal(args[2 * k]), MlTree::Literal(args[2 * k + 1])),
        );
        assert(a =~= b);
    }
}

/// The expression that the argument at `i` reads as, where it reads as one.
pub open spec fn arg_tree(args: Seq<JsonValue>, i: int) -> MlTree {
    spec_expr(args[i])->Ok_0
}

/// Every argument reads as an expression.
pub open spec fn args_read(args: Seq<JsonValue>) -> bool {
    forall|i: int| 0 <= i < args.len() ==> (#[trigger] spec_expr(args[i])) is Ok
}

/// The arguments from the second on, each read as an expression, in order.
proof fn lemma_list_in_order(args: Seq<JsonValue>)
    requires
        args_read(args),
    ensures
        spec_list(args) == Ok::<Seq<MlTree>, MlExprError>(
            Seq::new(args.len(), |k: int| arg_tree(args, k)),
        ),
    decreases args.len(),
{
    reveal(spec_expr);
    if args.len() > 0 {
        let t = args.drop_first();
        assert forall|i: int| 0 <= i < t.len() implies (#[trigger] spec_expr(t[i])) is Ok by {
            assert(t[i] == args[i + 1]);
            assert(spec_expr(args[i + 1]) is Ok);
        }
        lemma_list_in_order(t);
        assert(spec_expr(args[0]) is Ok);
        assert(arg_expr(args, 0) == Ok::<MlTree, MlExprError>(arg_tree(args, 0)));
        assert(spec_list(args) == Ok::<Seq<MlTree>, MlExprError>(
            seq![arg_tree(args, 0)] + Seq::new(t.len(), |k: int| arg_tree(t, k)),
        ));
        assert(seq![arg_tree(args, 0)] + Seq::new(t.len(), |k: int| arg_tree(t, k)) =~= Seq::new(
            args.len(),
            |k: int| arg_tree(args, k),
        )) by {
            assert forall|k: int| 0 <= k < t.len() implies arg_tree(t, k) == arg_tree(args, k + 1) by {
                assert(t[k] == args[k + 1]);
            }
        }
    } else {
        assert(Seq::new(args.len(), |k: int| arg_tree(args, k)) =~= Seq::<MlTree>::empty());
    }
}

/// The arguments of an operator go to its operands in order: for `slice` the first is what is
/// sliced, the second the start and the third the end; for `index-of` the first is the item,
/// the second what it is looked for in and the third where to start; for `has` and `!has` the
/// first is the property and the second the object; for `in` and `!in` the first is the item
/// and the others the values, in order; for a binary operator the first is its left operand and
/// the second its right; for `-` the first is subtracted from or negated and the second
/// subtracted; for `rgb` and `rgba` they are the channels in order; for `step` the first is
/// the input and the second the output below the first stop; for `match` the first is the
/// input and the last the fallback.
pub proof fn law_operands_in_argument_order(args: Seq<JsonValue>)
    requires
        args_read(args),
    ensures
        args.len() == 2 ==> spec_slice(args) == Ok::<MlTree, MlExprError>(
            MlTree::Slice {
                array_or_string: Box::new(arg_tree(args, 0)),
                start: Box::new(arg_tree(args, 1)),
                end: None,
            },
        ),
        args.len() == 3 ==> spec_slice(args) == Ok::<MlTree, MlExprError>(
            MlTree::Slice {
                array_or_string: Box::new(arg_tree(args, 0)),
                start: Box::new(arg_tree(args, 1)),
                end: Some(Box::new(arg_tree(args, 2))),
            },
        ),
        args.len() == 2 ==> spec_index_of(args) == Ok::<MlTree, MlExprError>(
            MlTree::IndexOf {
                item: Box::new(arg_tree(args, 0)),
                array_or_string: Box::new(arg_tree(args, 1)),
                from_index: None,
            },
        ),
        args.len() == 3 ==> spec_index_of(args) == Ok::<MlTree, MlExprError>(
            MlTree::IndexOf {
                item: Box::new(arg_tree(args, 0)),
                array_or_string: Box::new(arg_tree(args, 1)),
                from_index: Some(Box::new(arg_tree(args, 2))),
            },
        ),
        forall|negated: bool|
            args.len() == 1 ==> #[trigger] spec_has(negated, args) == Ok::<MlTree, MlExprError>(
                MlTree::Has { negated, property: Box::new(arg_tree(args, 0)), object: None },
            ),
        forall|negated: bool|
            args.len() == 2 ==> #[trigger] spec_has(negated, args) == Ok::<MlTree, MlExprError>(
                MlTree::Has {
                    negated,
                    property: Box::new(arg_tree(args, 0)),
                    object: Some(Box::new(arg_tree(args, 1))),
                },
            ),
        forall|negated: bool|
            args.len() >= 1 ==> #[trigger] spec_in(negated, args) == Ok::<MlTree, MlExprError>(
                MlTree::In {
                    negated,
                    item: Box::new(arg_tree(args, 0)),
                    array: Seq::new((args.len() - 1) as nat, |k: int| arg_tree(args, k + 1)),
                },
            ),
        forall|op: BinaryOp|
            args.len() == 2 ==> #[trigger] spec_binary(op, args) == Ok::<MlTree, MlExprError>(
                MlTree::Binary(op, Box::new(arg_tree(args, 0)), Box::new(arg_tree(args, 1))),
            ),
        forall|op: UnaryOp|
            args.len() == 1 ==> #[trigger] spec_unary(op, args) == Ok::<MlTree, MlExprError>(
                MlTree::Unary(op, Box::new(arg_tree(args, 0))),
            ),
        args.len() == 1 ==> spec_sub(args) == Ok::<MlTree, MlExprError>(
            MlTree::Sub(Box::new(arg_tree(args, 0)), None),
        ),
        args.len() == 2 ==> spec_sub(args) == Ok::<MlTree, MlExprError>(
            MlTree::Sub(Box::new(arg_tree(args, 0)), Some(Box::new(arg_tree(args, 1)))),
        ),
        args.len() == 3 ==> spec_rgb(args) == Ok::<MlTree, MlExprError>(
            MlTree::Rgb(
                Box::new(arg_tree(args, 0)),
                Box::new(arg_tree(args, 1)),
                Box::new(arg_tree(args, 2)),
            ),
        ),
        args.len() == 4 ==> spec_rgba(args) == Ok::<MlTree, MlExprError>(
            MlTree::Rgba(
                Box::new(arg_tree(args, 0)),
                Box::new(arg_tree(args, 1)),
                Box::new(arg_tree(args, 2)),
                Box::new(arg_tree(args, 3)),
            ),
        ),
        args.len() == 2 ==> spec_step(args) == Ok::<MlTree, MlExprError>(
            MlTree::Step {
                input: Box::new(arg_tree(args, 0)),
                default_output: Box::new(arg_tree(args, 1)),
                stops: Seq::empty(),
            },
        ),
        args.len() == 4 ==> spec_match(args) == Ok::<MlTree, MlExprError>(
            MlTree::Match {
                input: Box::new(arg_tree(args, 0)),
                branches: seq![(args[1], arg_tree(args, 2))],
                fallback: Box::new(arg_tree(args, 3)),
            },
        ),
{
    reveal(spec_expr);
    let n = args.len();
    if n >= 1 {
        assert(spec_expr(args[0]) is Ok);
        assert(arg_expr(args, 0) == Ok::<MlTree, MlExprError>(arg_tree(args, 0)));
        let r1 = rest(args);
        assert(r1 == args.drop_first());
        assert forall|i: int| 0 <= i < r1.len() implies (#[trigger] spec_expr(r1[i])) is Ok by {
            assert(r1[i] == args[i + 1]);
            assert(spec_expr(args[i + 1]) is Ok);
        }
        lemma_list_in_order(r1);
        assert(Seq::new(r1.len(), |k: int| arg_tree(r1, k)) =~= Seq::new(
            (n - 1) as nat,
            |k: int| arg_tree(args, k + 1),
        )) by {
            assert forall|k: int| 0 <= k < r1.len() implies arg_tree(r1, k) == arg_tree(args, k + 1) by {
                assert(r1[k] == args[k + 1]);
            }
        }
        if n >= 2 {
            assert(r1[0] == args[1]);
            assert(spec_expr(args[1]) is Ok);
            assert(arg_expr(r1, 0) == Ok::<MlTree, MlExprError>(arg_tree(args, 1)));
            assert(arg_expr(args, 1) == Ok::<MlTree, MlExprError>(arg_tree(args, 1)));
            let r2 = rest(r1);
            if n >= 3 {
                assert(r2[0] == args[2]);
                assert(spec_expr(args[2]) is Ok);
                assert(arg_expr(r2, 0) == Ok::<MlTree, MlExprError>(arg_tree(args, 2)));
                assert(arg_expr(args, 2) == Ok::<MlTree, MlExprError>(arg_tree(args, 2)));
                if n >= 4 {
                    let r3 = rest(r2);
                    assert(r3[0] == args[3]);
                    assert(spec_expr(args[3]) is Ok);
                    assert(arg_expr(r3, 0) == Ok::<MlTree, MlExprError>(arg_tree(args, 3)));
                    assert(arg_expr(args, 3) == Ok::<MlTree, MlExprError>(arg_tree(args, 3)));
                }
            }
        }
        if n == 2 {
            assert(args.subrange(2, 2) =~= Seq::<JsonValue>::empty());
            assert(spec_stops(args.subrange(2, 2)) == Ok::<Seq<(Num, MlTree)>, MlExprError>(Seq::empty()));
        }
        if n == 4 {
            let mid = args.subrange(1, 3);
            assert(mid[0] == args[1] && mid[1] == args[2]);
            assert(arg_expr(mid, 1) == Ok::<MlTree, MlExprError>(arg_tree(args, 2)));
            assert(mid.subrange(2, 2) =~= Seq::<JsonValue>::empty());
            assert(spec_match_branches(mid) == Ok::<Seq<(JsonValue, MlTree)>, MlExprError>(
                seq![(args[1], arg_tree(args, 2))],
            )) by {
                assert(seq![(args[1], arg_tree(args, 2))] + Seq::<(JsonValue, MlTree)>::empty() =~= seq![(args[1], arg_tree(args, 2))]);
            }
        }
    }
}

pub open spec fn spec_match(args: Seq<JsonValue>) -> Result<MlTree, MlExprError>
    decreases args, 2nat,
{
    let n = args.len();
    if n < 4 || n % 2 != 0 {
        Err(MlExprError::ArgumentCount { op: "match", count: n as usize })
    } else {
        match arg_expr(args, 0) {
            Err(e) => Err(e),
            Ok(input) => match arg_expr(args, n - 1) {
                Err(e) => Err(e),
                Ok(fallback) => match spec_match_branches(args.subrange(1, n - 1)) {
                    Err(e) => Err(e),
                    Ok(branches) => Ok(
                        MlTree::Match {
                            input: Box::new(input),
                            branches,
                            fallback: Box::new(fallback),
                        },
                    ),
                },
            },
        }
    }
}

pub open spec fn spec_sub(args: Seq<JsonValue>) -> Result<MlTree, MlExprError>
    decreases args, 2nat,
{
    match spec_take(args, 1, "-") {
        Err(e) => Err(e),
        Ok(a) => match spec_take_opt(rest(args)) {
            Err(e) => Err(e),
            Ok(b) => Ok(MlTree::Sub(Box::new(a), boxed(b))),
        },
    }
}

pub open spec fn spec_rgb(args: Seq<JsonValue>) -> Result<MlTree, MlExprError>
    decreases args, 2nat,
{
    match spec_take(args, 1, "rgb") {
        Err(e) => Err(e),
        Ok(r) => match spec_take(rest(args), 2, "rgb") {
            Err(e) => Err(e),
            Ok(g) => match spec_take(rest(rest(args)), 3, "rgb") {
                Err(e) => Err(e),
                Ok(b) => Ok(MlTree::Rgb(Box::new(r), Box::new(g), Box::new(b))),
            },
        },
    }
}

pub open spec fn spec_rgba(args: Seq<JsonValue>) -> Result<MlTree, MlExprError>
    decreases args, 2nat,
{
    match spec_take(args, 1, "rgba") {
        Err(e) => Err(e),
        Ok(r) => match spec_take(rest(args), 2, "rgba") {
            Err(e) => Err(e),
            Ok(g) => match spec_take(rest(rest(args)), 3, "rgba") {
                Err(e) => Err(e),
                Ok(b) => match spec_take(rest(rest(rest(args))), 4, "rgba") {
                    Err(e) => Err(e),
                    Ok(a) => Ok(MlTree::Rgba(Box::new(r), Box::new(g), Box::new(b), Box::new(a))),
                },
            },
        },
    }
}

/// The element type named by an `array` assertion: the argument, where it is a string.
pub open spec fn string_of(v: JsonValue) -> Option<String> {
    match v {
        JsonValue::String(s) => Some(s),
        _ => None,
    }
}

pub open spec fn unsigned_of(v: JsonValue) -> Option<u64> {
    match v {
        JsonValue::Number(n) => n.unsigned,
        _ => None,
    }
}

pub open spec fn spec_array_assertion(args: Seq<JsonValue>) -> Result<MlTree, MlExprError>
    decreases args, 2nat,
{
    let n = args.len();
    if n == 1 {
        match arg_expr(args, 0) {
            Err(e) => Err(e),
            Ok(value) => Ok(
                MlTree::ArrayAssertion { element_type: None, length: None, value: Box::new(value) },
            ),
        }
    } else if n == 2 {
        match arg_expr(args, 1) {
            Err(e) => Err(e),
            Ok(value) => Ok(
                MlTree::ArrayAssertion {
                    element_type: string_of(args[0]),
                    length: None,
                    value: Box::new(value),
                },
            ),
        }
    } else if n == 3 {
        match arg_expr(args, 2) {
            Err(e) => Err(e),
            Ok(value) => Ok(
                MlTree::ArrayAssertion {
                    element_type: string_of(args[0]),
                    length: unsigned_of(args[1]),
                    value: Box::new(value),
                },
            ),
        }
    } else {
        Err(MlExprError::ArgumentCount { op: "array", count: n as usize })
    }
}

pub open spec fn spec_number_format(args: Seq<JsonValue>) -> Result<MlTree, MlExprError>
    decreases args, 2nat,
{
    match spec_take(args, 1, "number-format") {
        Err(e) => Err(e),
        Ok(input) => if args.len() < 2 {
            Err(MlExprError::MissingArgument { op: "number-format", position: 2 })
        } else {
            Ok(MlTree::NumberFormat { input: Box::new(input), options: args[1] })
        },
    }
}

pub open spec fn spec_unary(op: UnaryOp, args: Seq<JsonValue>) -> Result<MlTree, MlExprError>
    decreases args, 2nat,
{
    match spec_take(args, 1, op.name()) {
        Err(e) => Err(e),
        Ok(a) => Ok(MlTree::Unary(op, Box::new(a))),
    }
}

pub open spec fn spec_binary(op: BinaryOp, args: Seq<JsonValue>) -> Result<MlTree, MlExprError>
    decreases args, 2nat,
{
    match spec_take(args, 1, op.name()) {
        Err(e) => Err(e),
        Ok(a) => match spec_take(rest(args), 2, op.name()) {
            Err(e) => Err(e),
            Ok(b) => Ok(MlTree::Binary(op, Box::new(a), Box::new(b))),
        },
    }
}

pub open spec fn spec_variadic(op: VariadicOp, args: Seq<JsonValue>) -> Result<MlTree, MlExprError>
    decreases args, 2nat,
{
    match spec_list(args) {
        Err(e) => Err(e),
        Ok(a) => Ok(MlTree::Variadic(op, a)),
    }
}

pub open spec fn spec_raw(op: RawOp, args: Seq<JsonValue>) -> Result<MlTree, MlExprError> {
    if args.len() == 0 {
        Err(MlExprError::MissingArgument { op: op.name(), position: 1 })
    } else {
        Ok(MlTree::Raw(op, args[0]))
    }
}

pub open spec fn spec_format_expr(args: Seq<JsonValue>) -> Result<MlTree, MlExprError>
    decreases args, 2nat,
{
    match spec_format(args) {
        Err(e) => Err(e),
        Ok(sections) => Ok(MlTree::Format(sections)),
    }
}

/// The expression with operator `op` and arguments `args`.
pub open spec fn spec_operation(op: String, args: Seq<JsonValue>) -> Result<MlTree, MlExprError>
    decreases args, 3nat,
{
    match op_kind(op@) {
        OpKind::Let => spec_let(args),
        OpKind::Var => spec_var(args),
        OpKind::Step => spec_step(args),
        OpKind::Interpolate(space) => spec_interpolate(space, args),
        OpKind::Get => spec_get(args),
        OpKind::Has(negated) => spec_has(negated, args),
        OpKind::In(negated) => spec_in(negated, args),
        OpKind::IndexOf => spec_index_of(args),
        OpKind::Slice => spec_slice(args),
        OpKind::Case => spec_case(args),
        OpKind::Match => spec_match(args),
        OpKind::Sub => spec_sub(args),
        OpKind::Rgb => spec_rgb(args),
        OpKind::Rgba => spec_rgba(args),
        OpKind::ArrayAssertion => spec_array_assertion(args),
        OpKind::Format => spec_format_expr(args),
        OpKind::NumberFormat => spec_number_format(args),
        OpKind::Unary(u) => spec_unary(u, args),
        OpKind::Binary(b) => spec_binary(b, args),
        OpKind::Variadic(v) => spec_variadic(v, args),
        OpKind::Nullary(z) => Ok(MlTree::Nullary(z)),
        OpKind::Raw(r) => spec_raw(r, args),
        OpKind::Unknown => Ok(MlTree::Unknown { operator: op, args }),
    }
}

/// The number at index `i` of a curve array; on failure the offending element is moved into the error.
fn curve_number(a: &mut Vec<JsonValue>, i: usize) -> (r: Result<Num, InterpolationError>)
    ensures
        r == spec_curve_number(old(a)@, i as int),
        r is Ok ==> final(a)@ == old(a)@,
{
    if i >= a.len() {
        return Err(InterpolationError::MissingElement(i));
    }
    let found = match &a[i] {
        JsonValue::Number(n) => Some(n.value),
        _ => None,
    };
    match found {
        Some(x) => Ok(x),
        None => {
            let value = a.remove(i);
            Err(InterpolationError::NotANumber { index: i, value })
        },
    }
}

/// Reads the elements of a curve array.
fn curve_from_elements(a: Vec<JsonValue>) -> (r: Result<Interpolation, InterpolationError>)
    ensures
        r == spec_curve(a@),
{
    let mut a = a;
    let n = a.len();
    if n == 0 {
        return Err(InterpolationError::MissingElement(0));
    }
    let name_kind: u8 = match &a[0] {
        JsonValue::String(name) => {
            if str_eq(name.as_str(), "linear") {
                0
            } else if str_eq(name.as_str(), "exponential") {
                1
            } else if str_eq(name.as_str(), "cubic-bezier") {
                2
            } else {
                3
            }
        },
        _ => 4,
    };
    if name_kind == 4 {
        let v = a.remove(0);
        return Err(InterpolationError::NameNotString(v));
    }
    if name_kind == 3 {
        let v = a.remove(0);
        return match v {
            JsonValue::String(name) => Err(InterpolationError::UnknownName(name)),
            _ => Err(InterpolationError::MissingElement(0)),
        };
    }
    if name_kind == 0 {
        return Ok(Interpolation::Linear);
    }
    if name_kind == 1 {
        let base = match curve_number(&mut a, 1) {
            Ok(x) => x,
            Err(e) => return Err(e),
        };
        if n > 2 {
            return Err(InterpolationError::TooManyElements(n));
        }
        return Ok(Interpolation::Exponential { base });
    }
    let x1 = match curve_number(&mut a, 1) {
        Ok(x) => x,
        Err(e) => return Err(e),
    };
    let y1 = match curve_number(&mut a, 2) {
        Ok(x) => x,
        Err(e) => return Err(e),
    };
    let x2 = match curve_number(&mut a, 3) {
        Ok(x) => x,
        Err(e) => return Err(e),
    };
    let y2 = match curve_number(&mut a, 4) {
        Ok(x) => x,
        Err(e) => return Err(e),
    };
    if n > 5 {
        return Err(InterpolationError::TooManyElements(n));
    }
    Ok(Interpolation::CubicBezier { x1, y1, x2, y2 })
}

impl Interpolation {
    /// Reads an interpolation curve: `["linear"]` (extra elements are ignored),
    /// `["exponential", base]` or `["cubic-bezier", x1, y1, x2, y2]`.
    pub fn from_json(v: JsonValue) -> (r: Result<Interpolation, InterpolationError>)
        ensures
            r == spec_interpolation(v),
    {
        match v {
            JsonValue::Array(a) => curve_from_elements(a),
            other => Err(InterpolationError::NotAnArray(other)),
        }
    }
}

pub open spec fn list_result(r: Result<Vec<MlExpr>, MlExprError>) -> Result<Seq<MlTree>, MlExprError> {
    match r {
        Ok(v) => Ok(trees_of(v@)),
        Err(e) => Err(e),
    }
}

pub open spec fn opt_result(r: Result<Option<Box<MlExpr>>, MlExprError>) -> Result<Option<MlTree>, MlExprError> {
    match r {
        Ok(Some(b)) => Ok(Some(tree_of(*b))),
        Ok(None) => Ok(None),
        Err(e) => Err(e),
    }
}


proof fn lemma_tree_literal(v: JsonValue)
    ensures
        tree_of(MlExpr::Literal(v)) == MlTree::Literal(v),
{
    reveal(tree_of);
}

proof fn lemma_tree_let(bindings: Vec<(String, Box<MlExpr>)>, body: Box<MlExpr>)
    ensures
        tree_of(MlExpr::Let { bindings, body }) == (MlTree::Let {
            bindings: bindings_tree(bindings@),
            body: Box::new(tree_of(*body)),
        }),
{
    reveal(tree_of);
}

proof fn lemma_tree_var(name: String)
    ensures
        tree_of(MlExpr::Var(name)) == MlTree::Var(name),
{
    reveal(tree_of);
}

proof fn lemma_tree_step(input: Box<MlExpr>, default_output: Box<MlExpr>, stops: Vec<(Num, MlExpr)>)
    ensures
        tree_of(MlExpr::Step { input, default_output, stops }) == (MlTree::Step {
            input: Box::new(tree_of(*input)),
            default_output: Box::new(tree_of(*default_output)),
            stops: stops_tree(stops@),
        }),
{
    reveal(tree_of);
}

proof fn lemma_tree_interpolate(
    interpolation: Interpolation,
    input: Box<MlExpr>,
    stops: Vec<(Num, MlExpr)>,
)
    ensures
        tree_of(MlExpr::Interpolate { interpolation, input, stops }) == (MlTree::Interpolate {
            space: InterpolateSpace::Plain,
            interpolation,
            input: Box::new(tree_of(*input)),
            stops: stops_tree(stops@),
        }),
        tree_of(MlExpr::InterpolateHcl { interpolation, input, stops }) == (MlTree::Interpolate {
            space: InterpolateSpace::Hcl,
            interpolation,
            input: Box::new(tree_of(*input)),
            stops: stops_tree(stops@),
        }),
        tree_of(MlExpr::InterpolateLab { interpolation, input, stops }) == (MlTree::Interpolate {
            space: InterpolateSpace::Lab,
            interpolation,
            input: Box::new(tree_of(*input)),
            stops: stops_tree(stops@),
        }),
{
    reveal(tree_of);
}

proof fn lemma_tree_get(property: String, object: Option<Box<MlExpr>>)
    ensures
        tree_of(MlExpr::Get { property, object }) == (MlTree::Get {
            property,
            object: tree_opt(object),
        }),
{
    reveal(tree_of);
}

proof fn lemma_tree_has(property: Box<MlExpr>, object: Option<Box<MlExpr>>)
    ensures
        tree_of(MlExpr::Has { property, object }) == (MlTree::Has {
            negated: false,
            property: Box::new(tree_of(*property)),
            object: tree_opt(object),
        }),
        tree_of(MlExpr::NotHas { property, object }) == (MlTree::Has {
            negated: true,
            property: Box::new(tree_of(*property)),
            object: tree_opt(object),
        }),
{
    reveal(tree_of);
}

proof fn lemma_tree_in(item: Box<MlExpr>, array: Vec<MlExpr>)
    ensures
        tree_of(MlExpr::In { item, array }) == (MlTree::In {
            negated: false,
            item: Box::new(tree_of(*item)),
            array: trees_of(array@),
        }),
        tree_of(MlExpr::NotIn { item, array }) == (MlTree::In {
            negated: true,
            item: Box::new(tree_of(*item)),
            array: trees_of(array@),
        }),
{
    reveal(tree_of);
}

proof fn lemma_tree_index_of(item: Box<MlExpr>, array_or_string: Box<MlExpr>, from_index: Option<Box<MlExpr>>)
    ensures
        tree_of(MlExpr::IndexOf { item, array_or_string, from_index }) == (MlTree::IndexOf {
            item: Box::new(tree_of(*item)),
            array_or_string: Box::new(tree_of(*array_or_string)),
            from_index: tree_opt(from_index),
        }),
{
    reveal(tree_of);
}

proof fn lemma_tree_slice(array_or_string: Box<MlExpr>, start: Box<MlExpr>, end: Option<Box<MlExpr>>)
    ensures
        tree_of(MlExpr::Slice { array_or_string, start, end }) == (MlTree::Slice {
            array_or_string: Box::new(tree_of(*array_or_string)),
            start: Box::new(tree_of(*start)),
            end: tree_opt(end),
        }),
{
    reveal(tree_of);
}

proof fn lemma_tree_case(branches: Vec<(Box<MlExpr>, Box<MlExpr>)>, fallback: Box<MlExpr>)
    ensures
        tree_of(MlExpr::Case { branches, fallback }) == (MlTree::Case {
            branches: case_tree(branches@),
            fallback: Box::new(tree_of(*fallback)),
        }),
{
    reveal(tree_of);
}

proof fn lemma_tree_match(input: Box<MlExpr>, branches: Vec<(JsonValue, Box<MlExpr>)>, fallback: Box<MlExpr>)
    ensures
        tree_of(MlExpr::Match { input, branches, fallback }) == (MlTree::Match {
            input: Box::new(tree_of(*input)),
            branches: match_tree(branches@),
            fallback: Box::new(tree_of(*fallback)),
        }),
{
    reveal(tree_of);
}

proof fn lemma_tree_sub(a: Box<MlExpr>, b: Option<Box<MlExpr>>)
    ensures
        tree_of(MlExpr::Sub(a, b)) == MlTree::Sub(Box::new(tree_of(*a)), tree_opt(b)),
{
    reveal(tree_of);
}

proof fn lemma_tree_rgb(r: Box<MlExpr>, g: Box<MlExpr>, b: Box<MlExpr>, a: Box<MlExpr>)
    ensures
        tree_of(MlExpr::Rgb(r, g, b)) == MlTree::Rgb(
            Box::new(tree_of(*r)),
            Box::new(tree_of(*g)),
            Box::new(tree_of(*b)),
        ),
        tree_of(MlExpr::Rgba(r, g, b, a)) == MlTree::Rgba(
            Box::new(tree_of(*r)),
            Box::new(tree_of(*g)),
            Box::new(tree_of(*b)),
            Box::new(tree_of(*a)),
        ),
{
    reveal(tree_of);
}

proof fn lemma_tree_array_assertion(element_type: Option<String>, length: Option<u64>, value: Box<MlExpr>)
    ensures
        tree_of(MlExpr::ArrayAssertion { element_type, length, value }) == (MlTree::ArrayAssertion {
            element_type,
            length,
            value: Box::new(tree_of(*value)),
        }),
{
    reveal(tree_of);
}

proof fn lemma_tree_format(s: Vec<(Box<MlExpr>, Option<JsonValue>)>)
    ensures
        tree_of(MlExpr::Format(s)) == MlTree::Format(format_tree(s@)),
{
    reveal(tree_of);
}

proof fn lemma_tree_number_format(input: Box<MlExpr>, options: JsonValue)
    ensures
        tree_of(MlExpr::NumberFormat { input, options }) == (MlTree::NumberFormat {
            input: Box::new(tree_of(*input)),
            options,
        }),
{
    reveal(tree_of);
}

proof fn lemma_tree_unknown(operator: String, args: Vec<JsonValue>)
    ensures
        tree_of(MlExpr::Unknown { operator, args }) == (MlTree::Unknown { operator, args: args@ }),
{
    reveal(tree_of);
}


/// Putting an element in front puts its shape in front.
proof fn lemma_trees_of_insert(s: Seq<MlExpr>, e: MlExpr)
    ensures
        trees_of(s.insert(0, e)) == seq![tree_of(e)] + trees_of(s),
{
    reveal(tree_of);
    assert(trees_of(s.insert(0, e)) =~= seq![tree_of(e)] + trees_of(s));
}

/// Putting an element in front puts its shape in front.
proof fn lemma_stops_tree_insert(s: Seq<(Num, MlExpr)>, e: (Num, MlExpr))
    ensures
        stops_tree(s.insert(0, e)) == seq![(e.0, tree_of(e.1))] + stops_tree(s),
{
    reveal(tree_of);
    assert(stops_tree(s.insert(0, e)) =~= seq![(e.0, tree_of(e.1))] + stops_tree(s));
}

/// Putting an element in front puts its shape in front.
proof fn lemma_bindings_tree_insert(s: Seq<(String, Box<MlExpr>)>, e: (String, Box<MlExpr>))
    ensures
        bindings_tree(s.insert(0, e)) == seq![(e.0, tree_of(*e.1))] + bindings_tree(s),
{
    reveal(tree_of);
    assert(bindings_tree(s.insert(0, e)) =~= seq![(e.0, tree_of(*e.1))] + bindings_tree(s));
}

/// Putting an element in front puts its shape in front.
proof fn lemma_case_tree_insert(s: Seq<(Box<MlExpr>, Box<MlExpr>)>, e: (Box<MlExpr>, Box<MlExpr>))
    ensures
        case_tree(s.insert(0, e)) == seq![(tree_of(*e.0), tree_of(*e.1))] + case_tree(s),
{
    reveal(tree_of);
    assert(case_tree(s.insert(0, e)) =~= seq![(tree_of(*e.0), tree_of(*e.1))] + case_tree(s));
}

/// Putting an element in front puts its shape in front.
proof fn lemma_match_tree_insert(s: Seq<(JsonValue, Box<MlExpr>)>, e: (JsonValue, Box<MlExpr>))
    ensures
        match_tree(s.insert(0, e)) == seq![(e.0, tree_of(*e.1))] + match_tree(s),
{
    reveal(tree_of);
    assert(match_tree(s.insert(0, e)) =~= seq![(e.0, tree_of(*e.1))] + match_tree(s));
}

/// Putting an element in front puts its shape in front.
proof fn lemma_format_tree_insert(s: Seq<(Box<MlExpr>, Option<JsonValue>)>, e: (Box<MlExpr>, Option<JsonValue>))
    ensures
        format_tree(s.insert(0, e)) == seq![(tree_of(*e.0), e.1)] + format_tree(s),
{
    reveal(tree_of);
    assert(format_tree(s.insert(0, e)) =~= seq![(tree_of(*e.0), e.1)] + format_tree(s));
}

/// The shape of an optional boxed expression.
proof fn lemma_tree_opt(o: Option<Box<MlExpr>>)
    ensures
        tree_opt(o) == (match o {
            Some(b) => Some(Box::new(tree_of(*b))),
            None => None,
        }),
{
    reveal(tree_of);
}

/// Parses an expression from a JSON value: arrays are read as expressions,
/// all other values become [`MlExpr::Literal`].
pub fn expr_from_value(v: JsonValue) -> (r: Result<MlExpr, MlExprError>)
    ensures
        tree_result(r) == spec_expr(v),
    decreases json_size(v), 0nat,
{
    reveal(spec_expr);
    match v {
        JsonValue::Array(arr) => {
            proof {
                lemma_json_size_array(arr);
            }
            parse_expr_array(arr)
        },
        other => {
            proof {
                lemma_tree_literal(other);
            }
            Ok(MlExpr::Literal(other))
        },
    }
}

/// Parses `expr_from_value` into a box.
pub fn box_expr(v: JsonValue) -> (r: Result<Box<MlExpr>, MlExprError>)
    ensures
        box_result(r) == spec_expr(v),
    decreases json_size(v), 1nat,
{
    match expr_from_value(v) {
        Ok(e) => Ok(Box::new(e)),
        Err(e) => Err(e),
    }
}

/// Takes the next argument of `op`, which is expected at `position`.
pub fn take_arg(args: &mut Vec<JsonValue>, position: usize, op: &'static str) -> (r: Result<
    JsonValue,
    MlExprError,
>)
    ensures
        old(args)@.len() == 0 ==> r == Err::<JsonValue, MlExprError>(
            MlExprError::MissingArgument { op, position },
        ),
        old(args)@.len() > 0 ==> r == Ok::<JsonValue, MlExprError>(old(args)@[0]),
        final(args)@ == rest(old(args)@),
        seq_size(old(args)@) == seq_size(final(args)@) + (if r is Ok {
            json_size(old(args)@[0])
        } else {
            0
        }),
{
    if args.len() == 0 {
        Err(MlExprError::MissingArgument { op, position })
    } else {
        Ok(pop_front(args))
    }
}

/// Takes the next argument as an expression, where there is one.
fn take_opt(args: &mut Vec<JsonValue>) -> (r: Result<Option<Box<MlExpr>>, MlExprError>)
    ensures
        opt_result(r) == spec_take_opt(old(args)@),
        final(args)@ == rest(old(args)@),
        seq_size(final(args)@) <= seq_size(old(args)@),
    decreases seq_size(old(args)@), 2nat,
{
    proof {
        lemma_arg_exprs(args@);
    }
    if args.len() == 0 {
        Ok(None)
    } else {
        let v = pop_front(args);
        match box_expr(v) {
            Ok(b) => Ok(Some(b)),
            Err(e) => Err(e),
        }
    }
}

/// Takes the next argument of `op` as an expression.
fn take_expr(args: &mut Vec<JsonValue>, position: usize, op: &'static str) -> (r: Result<
    Box<MlExpr>,
    MlExprError,
>)
    ensures
        box_result(r) == spec_take(old(args)@, position, op),
        final(args)@ == rest(old(args)@),
        seq_size(final(args)@) <= seq_size(old(args)@),
    decreases seq_size(old(args)@), 2nat,
{
    proof {
        lemma_arg_exprs(args@);
    }
    let v = match take_arg(args, position, op) {
        Ok(v) => v,
        Err(e) => return Err(e),
    };
    box_expr(v)
}

/// Parses every argument as an expression.
pub fn parse_variadic(args: Vec<JsonValue>) -> (r: Result<Vec<MlExpr>, MlExprError>)
    ensures
        list_result(r) == spec_list(args@),
    decreases seq_size(args@), 2nat,
{
    proof {
        lemma_arg_exprs(args@);
    }
    let mut args = args;
    if args.len() == 0 {
        let out: Vec<MlExpr> = Vec::new();
        assert(trees_of(out@) =~= Seq::<MlTree>::empty());
        return Ok(out);
    }
    let ghost orig = args@;
    let v = pop_front(&mut args);
    proof {
        lemma_json_size_positive(v);
    }
    let e = match expr_from_value(v) {
        Ok(e) => e,
        Err(e) => return Err(e),
    };
    let mut tail = match parse_variadic(args) {
        Ok(t) => t,
        Err(e) => return Err(e),
    };
    let ghost old_tail = tail@;
    tail.insert(0, e);
    proof {
        lemma_trees_of_insert(old_tail, e);
    }
    Ok(tail)
}

/// Reads `(input, output)` stop pairs: the argument count must be even and every input a number.
/// An odd count leaves the arguments as they were; pairs read in full leave none.
pub fn parse_stop_pairs(args: &mut Vec<JsonValue>, op: &'static str) -> (r: Result<
    Vec<(Num, MlExpr)>,
    MlExprError,
>)
    ensures
        match r {
            Ok(v) => spec_stop_pairs(old(args)@, op) == Ok::<Seq<(Num, MlTree)>, MlExprError>(stops_tree(v@))
                && final(args)@.len() == 0,
            Err(e) => spec_stop_pairs(old(args)@, op) == Err::<Seq<(Num, MlTree)>, MlExprError>(e),
        },
        old(args)@.len() % 2 != 0 ==> final(args)@ == old(args)@,
    decreases seq_size(old(args)@), 2nat,
{
    if args.len() % 2 != 0 {
        return Err(MlExprError::UnpairedStops { op, count: args.len() });
    }
    let mut owned: Vec<JsonValue> = Vec::new();
    std::mem::swap(&mut owned, args);
    parse_stops(owned)
}

fn parse_stops(args: Vec<JsonValue>) -> (r: Result<Vec<(Num, MlExpr)>, MlExprError>)
    ensures
        match r {
            Ok(v) => spec_stops(args@) == Ok::<Seq<(Num, MlTree)>, MlExprError>(stops_tree(v@)),
            Err(e) => spec_stops(args@) == Err::<Seq<(Num, MlTree)>, MlExprError>(e),
        },
    decreases seq_size(args@), 1nat,
{
    proof {
        lemma_arg_exprs(args@);
    }
    let mut args = args;
    if args.len() < 2 {
        let out = Vec::new();
        assert(stops_tree(out@) =~= Seq::empty());
        return Ok(out);
    }
    let ghost orig = args@;
    let input = match &args[0] {
        JsonValue::Number(n) => Some(n.value),
        _ => None,
    };
    let input = match input {
        Some(x) => x,
        None => {
            let v = pop_front(&mut args);
            return Err(MlExprError::StopInputNotNumber(v));
        },
    };
    let first = pop_front(&mut args);
    let v = pop_front(&mut args);
    proof {
        lemma_json_size_positive(first);
        assert(args@ =~= orig.subrange(2, orig.len() as int));
    }
    let e = match expr_from_value(v) {
        Ok(e) => e,
        Err(e) => return Err(e),
    };
    let mut tail = match parse_stops(args) {
        Ok(t) => t,
        Err(e) => return Err(e),
    };
    let ghost old_tail = tail@;
    tail.insert(0, (input, e));
    proof {
        lemma_stops_tree_insert(old_tail, (input, e));
    }
    Ok(tail)
}

fn parse_bindings(args: Vec<JsonValue>) -> (r: Result<Vec<(String, Box<MlExpr>)>, MlExprError>)
    ensures
        match r {
            Ok(v) => spec_bindings(args@) == Ok::<Seq<(String, MlTree)>, MlExprError>(
                bindings_tree(v@),
            ),
            Err(e) => spec_bindings(args@) == Err::<Seq<(String, MlTree)>, MlExprError>(e),
        },
    decreases seq_size(args@), 2nat,
{
    proof {
        lemma_arg_exprs(args@);
    }
    let mut args = args;
    if args.len() < 2 {
        let out = Vec::new();
        assert(bindings_tree(out@) =~= Seq::empty());
        return Ok(out);
    }
    let ghost orig = args@;
    let first = pop_front(&mut args);
    let name = match first {
        JsonValue::String(s) => s,
        other => return Err(MlExprError::LetNameNotString(other)),
    };
    let v = pop_front(&mut args);
    proof {
        lemma_json_size_positive(first);
        assert(args@ =~= orig.subrange(2, orig.len() as int));
    }
    let e = match box_expr(v) {
        Ok(e) => e,
        Err(e) => return Err(e),
    };
    let mut tail = match parse_bindings(args) {
        Ok(t) => t,
        Err(e) => return Err(e),
    };
    let ghost old_tail = tail@;
    tail.insert(0, (name, e));
    proof {
        lemma_bindings_tree_insert(old_tail, (name, e));
    }
    Ok(tail)
}

fn parse_case_branches(args: Vec<JsonValue>) -> (r: Result<Vec<(Box<MlExpr>, Box<MlExpr>)>, MlExprError>)
    ensures
        match r {
            Ok(v) => spec_case_branches(args@) == Ok::<Seq<(MlTree, MlTree)>, MlExprError>(
                case_tree(v@),
            ),
            Err(e) => spec_case_branches(args@) == Err::<Seq<(MlTree, MlTree)>, MlExprError>(e),
        },
    decreases seq_size(args@), 2nat,
{
    proof {
        lemma_arg_exprs(args@);
    }
    let mut args = args;
    if args.len() < 2 {
        let out = Vec::new();
        assert(case_tree(out@) =~= Seq::empty());
        return Ok(out);
    }
    let ghost orig = args@;
    let c = pop_front(&mut args);
    let v = pop_front(&mut args);
    proof {
        lemma_json_size_positive(c);
        lemma_json_size_positive(v);
        assert(args@ =~= orig.subrange(2, orig.len() as int));
    }
    let cond = match box_expr(c) {
        Ok(e) => e,
        Err(e) => return Err(e),
    };
    let out = match box_expr(v) {
        Ok(e) => e,
        Err(e) => return Err(e),
    };
    let mut tail = match parse_case_branches(args) {
        Ok(t) => t,
        Err(e) => return Err(e),
    };
    let ghost old_tail = tail@;
    tail.insert(0, (cond, out));
    proof {
        lemma_case_tree_insert(old_tail, (cond, out));
    }
    Ok(tail)
}

fn parse_match_branches(args: Vec<JsonValue>) -> (r: Result<Vec<(JsonValue, Box<MlExpr>)>, MlExprError>)
    ensures
        match r {
            Ok(v) => spec_match_branches(args@) == Ok::<Seq<(JsonValue, MlTree)>, MlExprError>(
                match_tree(v@),
            ),
            Err(e) => spec_match_branches(args@) == Err::<Seq<(JsonValue, MlTree)>, MlExprError>(e),
        },
    decreases seq_size(args@), 2nat,
{
    proof {
        lemma_arg_exprs(args@);
    }
    let mut args = args;
    if args.len() < 2 {
        let out = Vec::new();
        assert(match_tree(out@) =~= Seq::empty());
        return Ok(out);
    }
    let ghost orig = args@;
    let labels = pop_front(&mut args);
    let v = pop_front(&mut args);
    proof {
        lemma_json_size_positive(labels);
        assert(args@ =~= orig.subrange(2, orig.len() as int));
    }
    let out = match box_expr(v) {
        Ok(e) => e,
        Err(e) => return Err(e),
    };
    let mut tail = match parse_match_branches(args) {
        Ok(t) => t,
        Err(e) => return Err(e),
    };
    let ghost old_tail = tail@;
    tail.insert(0, (labels, out));
    proof {
        lemma_match_tree_insert(old_tail, (labels, out));
    }
    Ok(tail)
}

fn parse_format(args: Vec<JsonValue>) -> (r: Result<Vec<(Box<MlExpr>, Option<JsonValue>)>, MlExprError>)
    ensures
        match r {
            Ok(v) => spec_format(args@) == Ok::<Seq<(MlTree, Option<JsonValue>)>, MlExprError>(
                format_tree(v@),
            ),
            Err(e) => spec_format(args@) == Err::<Seq<(MlTree, Option<JsonValue>)>, MlExprError>(e),
        },
    decreases seq_size(args@), 2nat,
{
    proof {
        lemma_arg_exprs(args@);
    }
    let mut args = args;
    if args.len() == 0 {
        let out = Vec::new();
        assert(format_tree(out@) =~= Seq::empty());
        return Ok(out);
    }
    let ghost orig = args@;
    let v = pop_front(&mut args);
    proof {
        lemma_json_size_positive(v);
    }
    let content = match box_expr(v) {
        Ok(e) => e,
        Err(e) => return Err(e),
    };
    let styled = args.len() >= 1 && args[0].is_object();
    let style = if styled {
        Some(pop_front(&mut args))
    } else {
        None
    };
    proof {
        if styled {
            assert(args@ =~= orig.subrange(2, orig.len() as int));
        }
    }
    let mut tail = match parse_format(args) {
        Ok(t) => t,
        Err(e) => return Err(e),
    };
    let ghost old_tail = tail@;
    tail.insert(0, (content, style));
    proof {
        lemma_format_tree_insert(old_tail, (content, style));
    }
    Ok(tail)
}

/// Parses `["operator", arg_1, arg_2, ...]`; an array whose first element is
/// not a string is a literal.
pub fn parse_expr_array(arr: Vec<JsonValue>) -> (r: Result<MlExpr, MlExprError>)
    ensures
        tree_result(r) == spec_expr_array(arr),
        r is Ok && arr@[0] is String ==> operator_of(tree_of(r->Ok_0)) == (if arr@[0]->String_0@
            == "literal"@ {
            None
        } else {
            Some(arr@[0]->String_0@)
        }),
    decreases seq_size(arr@), 5nat,
{
    if arr.len() == 0 {
        return Err(MlExprError::EmptyArray);
    }
    let named = match &arr[0] {
        JsonValue::String(_) => true,
        _ => false,
    };
    if !named {
        proof {
            lemma_tree_literal(JsonValue::Array(arr));
        }
        return Ok(MlExpr::Literal(JsonValue::Array(arr)));
    }
    let ghost orig = arr@;
    let mut args = arr;
    let first = pop_front(&mut args);
    proof {
        lemma_json_size_positive(first);
    }
    match first {
        JsonValue::String(op) => parse_operation(op, args),
        _ => Err(MlExprError::EmptyArray),
    }
}

/// Parses the arguments of the operator `op`.
fn parse_operation(op: String, args: Vec<JsonValue>) -> (r: Result<MlExpr, MlExprError>)
    ensures
        tree_result(r) == spec_operation(op, args@),
        r is Ok ==> operator_of(tree_of(r->Ok_0)) == (if op@ == "literal"@ {
            None
        } else {
            Some(op@)
        }),
    decreases seq_size(args@), 4nat,
{
    let k = op_kind_of(op.as_str());
    proof {
        if spec_operation(op, args@) is Ok {
            lemma_operation_operator(op, args@);
        }
        lemma_literal_kind();
    }
    match k {
        OpKind::Let => parse_let(args),
        OpKind::Var => parse_var(args),
        OpKind::Step => parse_step(args),
        OpKind::Interpolate(space) => parse_interpolate(space, args),
        OpKind::Get => parse_get(args),
        OpKind::Has(negated) => parse_has(negated, args),
        OpKind::In(negated) => parse_in(negated, args),
        OpKind::IndexOf => parse_index_of(args),
        OpKind::Slice => parse_slice(args),
        OpKind::Case => parse_case(args),
        OpKind::Match => parse_match(args),
        OpKind::Sub => parse_sub(args),
        OpKind::Rgb => parse_rgb(args),
        OpKind::Rgba => parse_rgba(args),
        OpKind::ArrayAssertion => parse_array_assertion(args),
        OpKind::Format => match parse_format(args) {
            Ok(sections) => {
                proof {
                    lemma_tree_format(sections);
                }
                Ok(MlExpr::Format(sections))
            },
            Err(e) => Err(e),
        },
        OpKind::NumberFormat => parse_number_format(args),
        OpKind::Unary(u) => parse_unary(u, args),
        OpKind::Binary(b) => parse_binary(b, args),
        OpKind::Variadic(v) => match parse_variadic(args) {
            Ok(a) => Ok(make_variadic(v, a)),
            Err(e) => Err(e),
        },
        OpKind::Nullary(z) => Ok(make_nullary(z)),
        OpKind::Raw(raw) => {
            let mut args = args;
            match take_arg(&mut args, 1, raw.op_name()) {
                Ok(v) => Ok(make_raw(raw, v)),
                Err(e) => Err(e),
            }
        },
        OpKind::Unknown => {
            proof {
                lemma_tree_unknown(op, args);
            }
            Ok(MlExpr::Unknown { operator: op, args })
        },
    }
}

fn parse_let(args: Vec<JsonValue>) -> (r: Result<MlExpr, MlExprError>)
    ensures
        tree_result(r) == spec_let(args@),
    decreases seq_size(args@), 3nat,
{
    proof {
        lemma_arg_exprs(args@);
    }
    let mut args = args;
    let n = args.len();
    if n < 3 || n % 2 == 0 {
        return Err(MlExprError::ArgumentCount { op: "let", count: n });
    }
    let body_val = pop_back(&mut args);
    let body = match box_expr(body_val) {
        Ok(e) => e,
        Err(e) => return Err(e),
    };
    let bindings = match parse_bindings(args) {
        Ok(b) => b,
        Err(e) => return Err(e),
    };
    proof {
        lemma_tree_let(bindings, body);
    }
    Ok(MlExpr::Let { bindings, body })
}

fn parse_var(args: Vec<JsonValue>) -> (r: Result<MlExpr, MlExprError>)
    ensures
        tree_result(r) == spec_var(args@),
{
    let mut args = args;
    match take_arg(&mut args, 1, "var") {
        Ok(JsonValue::String(name)) => {
            proof {
                lemma_tree_var(name);
            }
            Ok(MlExpr::Var(name))
        },
        Ok(other) => Err(MlExprError::VarNameNotString(other)),
        Err(e) => Err(e),
    }
}

fn parse_step(args: Vec<JsonValue>) -> (r: Result<MlExpr, MlExprError>)
    ensures
        tree_result(r) == spec_step(args@),
    decreases seq_size(args@), 3nat,
{
    proof {
        lemma_arg_exprs(args@);
    }
    let mut args = args;
    let n = args.len();
    if n < 2 {
        return Err(MlExprError::ArgumentCount { op: "step", count: n });
    }
    let ghost orig = args@;
    let a = pop_front(&mut args);
    let input = match box_expr(a) {
        Ok(e) => e,
        Err(e) => return Err(e),
    };
    let b = pop_front(&mut args);
    let default_output = match box_expr(b) {
        Ok(e) => e,
        Err(e) => return Err(e),
    };
    proof {
        assert(args@ =~= orig.subrange(2, n as int));
    }
    let stops = match parse_stop_pairs(&mut args, "step") {
        Ok(s) => s,
        Err(e) => return Err(e),
    };
    proof {
        lemma_tree_step(input, default_output, stops);
    }
    Ok(MlExpr::Step { input, default_output, stops })
}

fn parse_interpolate(space: InterpolateSpace, args: Vec<JsonValue>) -> (r: Result<MlExpr, MlExprError>)
    ensures
        tree_result(r) == spec_interpolate(space, args@),
    decreases seq_size(args@), 3nat,
{
    proof {
        lemma_arg_exprs(args@);
    }
    let mut args = args;
    let n = args.len();
    let op = space.op_name();
    if n < 2 {
        return Err(MlExprError::ArgumentCount { op, count: n });
    }
    let ghost orig = args@;
    let c = pop_front(&mut args);
    let interpolation = match Interpolation::from_json(c) {
        Ok(i) => i,
        Err(cause) => return Err(MlExprError::BadInterpolation { op, cause }),
    };
    let a = pop_front(&mut args);
    let input = match box_expr(a) {
        Ok(e) => e,
        Err(e) => return Err(e),
    };
    proof {
        lemma_json_size_positive(c);
        assert(args@ =~= orig.subrange(2, n as int));
    }
    let stops = match parse_stop_pairs(&mut args, op) {
        Ok(s) => s,
        Err(e) => return Err(e),
    };
    proof {
        lemma_tree_interpolate(interpolation, input, stops);
    }
    match space {
        InterpolateSpace::Plain => Ok(MlExpr::Interpolate { interpolation, input, stops }),
        InterpolateSpace::Hcl => Ok(MlExpr::InterpolateHcl { interpolation, input, stops }),
        InterpolateSpace::Lab => Ok(MlExpr::InterpolateLab { interpolation, input, stops }),
    }
}

fn parse_get(args: Vec<JsonValue>) -> (r: Result<MlExpr, MlExprError>)
    ensures
        tree_result(r) == spec_get(args@),
    decreases seq_size(args@), 3nat,
{
    let mut args = args;
    let property = match take_arg(&mut args, 1, "get") {
        Ok(JsonValue::String(s)) => s,
        Ok(_) => return Err(MlExprError::GetPropertyNotString),
        Err(e) => return Err(e),
    };
    let object = match take_opt(&mut args) {
        Ok(o) => o,
        Err(e) => return Err(e),
    };
    proof {
        lemma_tree_opt(object);
        lemma_tree_get(property, object);
    }
    Ok(MlExpr::Get { property, object })
}

fn parse_has(negated: bool, args: Vec<JsonValue>) -> (r: Result<MlExpr, MlExprError>)
    ensures
        tree_result(r) == spec_has(negated, args@),
    decreases seq_size(args@), 3nat,
{
    let mut args = args;
    let property = match take_expr(&mut args, 1, if negated { "!has" } else { "has" }) {
        Ok(e) => e,
        Err(e) => return Err(e),
    };
    let object = match take_opt(&mut args) {
        Ok(o) => o,
        Err(e) => return Err(e),
    };
    proof {
        lemma_tree_opt(object);
        lemma_tree_has(property, object);
    }
    if negated {
        Ok(MlExpr::NotHas { property, object })
    } else {
        Ok(MlExpr::Has { property, object })
    }
}

fn parse_in(negated: bool, args: Vec<JsonValue>) -> (r: Result<MlExpr, MlExprError>)
    ensures
        tree_result(r) == spec_in(negated, args@),
    decreases seq_size(args@), 3nat,
{
    let mut args = args;
    let item = match take_expr(&mut args, 1, "!in") {
        Ok(e) => e,
        Err(e) => return Err(e),
    };
    let array = match parse_variadic(args) {
        Ok(a) => a,
        Err(e) => return Err(e),
    };
    proof {
        lemma_tree_in(item, array);
    }
    if negated {
        Ok(MlExpr::NotIn { item, array })
    } else {
        Ok(MlExpr::In { item, array })
    }
}

fn parse_index_of(args: Vec<JsonValue>) -> (r: Result<MlExpr, MlExprError>)
    ensures
        tree_result(r) == spec_index_of(args@),
    decreases seq_size(args@), 3nat,
{
    let mut args = args;
    let item = match take_expr(&mut args, 1, "index-of") {
        Ok(e) => e,
        Err(e) => return Err(e),
    };
    let array_or_string = match take_expr(&mut args, 2, "index-of") {
        Ok(e) => e,
        Err(e) => return Err(e),
    };
    let from_index = match take_opt(&mut args) {
        Ok(o) => o,
        Err(e) => return Err(e),
    };
    proof {
        lemma_tree_opt(from_index);
        lemma_tree_index_of(item, array_or_string, from_index);
    }
    Ok(MlExpr::IndexOf { item, array_or_string, from_index })
}

fn parse_slice(args: Vec<JsonValue>) -> (r: Result<MlExpr, MlExprError>)
    ensures
        tree_result(r) == spec_slice(args@),
    decreases seq_size(args@), 3nat,
{
    let mut args = args;
    let array_or_string = match take_expr(&mut args, 1, "slice") {
        Ok(e) => e,
        Err(e) => return Err(e),
    };
    let start = match take_expr(&mut args, 2, "slice") {
        Ok(e) => e,
        Err(e) => return Err(e),
    };
    let end = match take_opt(&mut args) {
        Ok(o) => o,
        Err(e) => return Err(e),
    };
    proof {
        lemma_tree_opt(end);
        lemma_tree_slice(array_or_string, start, end);
    }
    Ok(MlExpr::Slice { array_or_string, start, end })
}

fn parse_case(args: Vec<JsonValue>) -> (r: Result<MlExpr, MlExprError>)
    ensures
        tree_result(r) == spec_case(args@),
    decreases seq_size(args@), 3nat,
{
    proof {
        lemma_arg_exprs(args@);
    }
    let mut args = args;
    let n = args.len();
    if n < 3 || n % 2 == 0 {
        return Err(MlExprError::ArgumentCount { op: "case", count: n });
    }
    let f = pop_back(&mut args);
    let fallback = match box_expr(f) {
        Ok(e) => e,
        Err(e) => return Err(e),
    };
    let branches = match parse_case_branches(args) {
        Ok(b) => b,
        Err(e) => return Err(e),
    };
    proof {
        lemma_tree_case(branches, fallback);
    }
    Ok(MlExpr::Case { branches, fallback })
}

fn parse_match(args: Vec<JsonValue>) -> (r: Result<MlExpr, MlExprError>)
    ensures
        tree_result(r) == spec_match(args@),
    decreases seq_size(args@), 3nat,
{
    proof {
        lemma_arg_exprs(args@);
    }
    let mut args = args;
    let n = args.len();
    if n < 4 || n % 2 != 0 {
        return Err(MlExprError::ArgumentCount { op: "match", count: n });
    }
    let ghost orig = args@;
    let a = pop_front(&mut args);
    let input = match box_expr(a) {
        Ok(e) => e,
        Err(e) => return Err(e),
    };
    let f = pop_back(&mut args);
    proof {
        assert(f == orig[n - 1]);
    }
    let fallback = match box_expr(f) {
        Ok(e) => e,
        Err(e) => return Err(e),
    };
    proof {
        assert(args@ =~= orig.subrange(1, n - 1));
    }
    let branches = match parse_match_branches(args) {
        Ok(b) => b,
        Err(e) => return Err(e),
    };
    proof {
        lemma_tree_match(input, branches, fallback);
    }
    Ok(MlExpr::Match { input, branches, fallback })
}

fn parse_sub(args: Vec<JsonValue>) -> (r: Result<MlExpr, MlExprError>)
    ensures
        tree_result(r) == spec_sub(args@),
    decreases seq_size(args@), 3nat,
{
    let mut args = args;
    let a = match take_expr(&mut args, 1, "-") {
        Ok(e) => e,
        Err(e) => return Err(e),
    };
    let b = match take_opt(&mut args) {
        Ok(o) => o,
        Err(e) => return Err(e),
    };
    proof {
        lemma_tree_opt(b);
        lemma_tree_sub(a, b);
    }
    Ok(MlExpr::Sub(a, b))
}

fn parse_rgb(args: Vec<JsonValue>) -> (r: Result<MlExpr, MlExprError>)
    ensures
        tree_result(r) == spec_rgb(args@),
    decreases seq_size(args@), 3nat,
{
    let mut args = args;
    let r = match take_expr(&mut args, 1, "rgb") {
        Ok(e) => e,
        Err(e) => return Err(e),
    };
    let g = match take_expr(&mut args, 2, "rgb") {
        Ok(e) => e,
        Err(e) => return Err(e),
    };
    let b = match take_expr(&mut args, 3, "rgb") {
        Ok(e) => e,
        Err(e) => return Err(e),
    };
    proof {
        lemma_tree_rgb(r, g, b, b);
    }
    Ok(MlExpr::Rgb(r, g, b))
}

fn parse_rgba(args: Vec<JsonValue>) -> (r: Result<MlExpr, MlExprError>)
    ensures
        tree_result(r) == spec_rgba(args@),
    decreases seq_size(args@), 3nat,
{
    let mut args = args;
    let r = match take_expr(&mut args, 1, "rgba") {
        Ok(e) => e,
        Err(e) => return Err(e),
    };
    let g = match take_expr(&mut args, 2, "rgba") {
        Ok(e) => e,
        Err(e) => return Err(e),
    };
    let b = match take_expr(&mut args, 3, "rgba") {
        Ok(e) => e,
        Err(e) => return Err(e),
    };
    let a = match take_expr(&mut args, 4, "rgba") {
        Ok(e) => e,
        Err(e) => return Err(e),
    };
    proof {
        lemma_tree_rgb(r, g, b, a);
    }
    Ok(MlExpr::Rgba(r, g, b, a))
}

fn parse_array_assertion(args: Vec<JsonValue>) -> (r: Result<MlExpr, MlExprError>)
    ensures
        tree_result(r) == spec_array_assertion(args@),
    decreases seq_size(args@), 3nat,
{
    proof {
        lemma_arg_exprs(args@);
    }
    let mut args = args;
    let n = args.len();
    if n == 0 || n > 3 {
        return Err(MlExprError::ArgumentCount { op: "array", count: n });
    }
    let ghost orig = args@;
    let element_type = if n >= 2 {
        match pop_front(&mut args) {
            JsonValue::String(s) => Some(s),
            _ => None,
        }
    } else {
        None
    };
    let length = if n == 3 {
        pop_front(&mut args).as_u64()
    } else {
        None
    };
    proof {
        assert(args@.len() == 1);
        assert(args@[0] == orig[n - 1]);
    }
    let v = pop_front(&mut args);
    let value = match box_expr(v) {
        Ok(e) => e,
        Err(e) => return Err(e),
    };
    proof {
        lemma_tree_array_assertion(element_type, length, value);
    }
    Ok(MlExpr::ArrayAssertion { element_type, length, value })
}

fn parse_number_format(args: Vec<JsonValue>) -> (r: Result<MlExpr, MlExprError>)
    ensures
        tree_result(r) == spec_number_format(args@),
    decreases seq_size(args@), 3nat,
{
    let mut args = args;
    let input = match take_expr(&mut args, 1, "number-format") {
        Ok(e) => e,
        Err(e) => return Err(e),
    };
    let options = match take_arg(&mut args, 2, "number-format") {
        Ok(v) => v,
        Err(e) => return Err(e),
    };
    proof {
        lemma_tree_number_format(input, options);
    }
    Ok(MlExpr::NumberFormat { input, options })
}

fn parse_unary(op: UnaryOp, args: Vec<JsonValue>) -> (r: Result<MlExpr, MlExprError>)
    ensures
        tree_result(r) == spec_unary(op, args@),
    decreases seq_size(args@), 3nat,
{
    let mut args = args;
    match take_expr(&mut args, 1, op.op_name()) {
        Ok(a) => Ok(make_unary(op, a)),
        Err(e) => Err(e),
    }
}

fn parse_binary(op: BinaryOp, args: Vec<JsonValue>) -> (r: Result<MlExpr, MlExprError>)
    ensures
        tree_result(r) == spec_binary(op, args@),
    decreases seq_size(args@), 3nat,
{
    let mut args = args;
    let a = match take_expr(&mut args, 1, op.op_name()) {
        Ok(e) => e,
        Err(e) => return Err(e),
    };
    let b = match take_expr(&mut args, 2, op.op_name()) {
        Ok(e) => e,
        Err(e) => return Err(e),
    };
    Ok(make_binary(op, a, b))
}

} // verus!

verus! {

/// A number written into JSON.
pub open spec fn number_json(n: Num) -> JsonValue {
    JsonValue::Number(JsonNumber { value: n, unsigned: None })
}

/// `a` are the elements of the JSON array that writes the curve `i`.
pub open spec fn curve_elements_are(i: Interpolation, a: Seq<JsonValue>) -> bool {
    match i {
        Interpolation::Linear => {
            &&& a.len() == 1
            &&& a[0] matches JsonValue::String(s) && s@ == "linear"@
        },
        Interpolation::Exponential { base } => {
            &&& a.len() == 2
            &&& a[0] matches JsonValue::String(s) && s@ == "exponential"@
            &&& a[1] == number_json(base)
        },
        Interpolation::CubicBezier { x1, y1, x2, y2 } => {
            &&& a.len() == 5
            &&& a[0] matches JsonValue::String(s) && s@ == "cubic-bezier"@
            &&& a[1] == number_json(x1)
            &&& a[2] == number_json(y1)
            &&& a[3] == number_json(x2)
            &&& a[4] == number_json(y2)
        },
    }
}

impl Interpolation {
    /// Writes the curve as its JSON array: `["linear"]`, `["exponential", base]` or
    /// `["cubic-bezier", x1, y1, x2, y2]`.
    pub fn to_json(&self) -> (v: JsonValue)
        ensures
            v matches JsonValue::Array(a) && curve_elements_are(*self, a@),
    {
        match self {
            Interpolation::Linear => {
                let a = vec![JsonValue::String(String::from_str("linear"))];
                JsonValue::Array(a)
            },
            Interpolation::Exponential { base } => {
                let a = vec![
                    JsonValue::String(String::from_str("exponential")),
                    JsonValue::Number(JsonNumber { value: *base, unsigned: None }),
                ];
                JsonValue::Array(a)
            },
            Interpolation::CubicBezier { x1, y1, x2, y2 } => {
                let a = vec![
                    JsonValue::String(String::from_str("cubic-bezier")),
                    JsonValue::Number(JsonNumber { value: *x1, unsigned: None }),
                    JsonValue::Number(JsonNumber { value: *y1, unsigned: None }),
                    JsonValue::Number(JsonNumber { value: *x2, unsigned: None }),
                    JsonValue::Number(JsonNumber { value: *y2, unsigned: None }),
                ];
                JsonValue::Array(a)
            },
        }
    }
}

/// Reading back a written curve gives the curve: `Interpolation::from_json` undoes
/// `Interpolation::to_json`.
pub proof fn lemma_curve_round_trip(i: Interpolation, v: JsonValue)
    requires
        v matches JsonValue::Array(a) && curve_elements_are(i, a@),
    ensures
        spec_interpolation(v) == Ok::<Interpolation, InterpolationError>(i),
{
    reveal_strlit("linear");
    reveal_strlit("exponential");
    reveal_strlit("cubic-bezier");
    assert("linear"@.len() == 6);
    assert("exponential"@.len() == 11);
    assert("cubic-bezier"@.len() == 12);
    let a = v->Array_0@;
    match i {
        Interpolation::Linear => {
            assert(spec_curve(a) == Ok::<Interpolation, InterpolationError>(i));
        },
        Interpolation::Exponential { base } => {
            assert(a[0]->String_0@ != "linear"@);
            assert(spec_curve_number(a, 1) == Ok::<Num, InterpolationError>(base));
            assert(spec_curve(a) == Ok::<Interpolation, InterpolationError>(i));
        },
        Interpolation::CubicBezier { x1, y1, x2, y2 } => {
            assert(a[0]->String_0@ != "linear"@);
            assert(a[0]->String_0@ != "exponential"@);
            assert(spec_curve_number(a, 1) == Ok::<Num, InterpolationError>(x1));
            assert(spec_curve_number(a, 4) == Ok::<Num, InterpolationError>(y2));
            assert(spec_curve(a) == Ok::<Interpolation, InterpolationError>(i));
        },
    }
}

impl MlExpr {
    /// Reads a top-level expression: only a JSON array is one.
    pub fn from_json(v: JsonValue) -> (r: Result<MlExpr, MlExprError>)
        ensures
            tree_result(r) == (match v {
                JsonValue::Array(arr) => spec_expr_array(arr),
                _ => Err(MlExprError::NotAnArray),
            }),
    {
        match v {
            JsonValue::Array(arr) => parse_expr_array(arr),
            _ => Err(MlExprError::NotAnArray),
        }
    }
}

/// A JSON value other than an array, in an argument position, is read as a literal.
pub proof fn lemma_non_array_is_literal(v: JsonValue)
    requires
        !(v is Array),
    ensures
        spec_expr(v) == Ok::<MlTree, MlExprError>(MlTree::Literal(v)),
{
    reveal(spec_expr);
}

/// An array whose first element is not a string is read as a literal array.
pub proof fn lemma_unnamed_array_is_literal(arr: Vec<JsonValue>)
    requires
        arr@.len() > 0,
        !(arr@[0] is String),
    ensures
        spec_expr_array(arr) == Ok::<MlTree, MlExprError>(MlTree::Literal(JsonValue::Array(arr))),
{
}

/// An operator this library does not know is kept, with all of its arguments, so that
/// newer styles still parse.
pub proof fn lemma_unknown_operator_kept(op: String, arr: Vec<JsonValue>)
    requires
        arr@.len() > 0,
        arr@[0] == JsonValue::String(op),
        op_kind(op@) == OpKind::Unknown,
    ensures
        spec_expr_array(arr) == Ok::<MlTree, MlExprError>(
            MlTree::Unknown { operator: op, args: arr@.drop_first() },
        ),
{
}

/// The name of the operator of a kind; an unknown operator keeps its own name.
pub open spec fn kind_name(k: OpKind, op: Seq<char>) -> Seq<char> {
    match k {
        OpKind::Let => "let"@,
        OpKind::Var => "var"@,
        OpKind::Step => "step"@,
        OpKind::Interpolate(space) => space.name()@,
        OpKind::Get => "get"@,
        OpKind::Has(negated) => if negated { "!has"@ } else { "has"@ },
        OpKind::In(negated) => if negated { "!in"@ } else { "in"@ },
        OpKind::IndexOf => "index-of"@,
        OpKind::Slice => "slice"@,
        OpKind::Case => "case"@,
        OpKind::Match => "match"@,
        OpKind::Sub => "-"@,
        OpKind::Rgb => "rgb"@,
        OpKind::Rgba => "rgba"@,
        OpKind::ArrayAssertion => "array"@,
        OpKind::Format => "format"@,
        OpKind::NumberFormat => "number-format"@,
        OpKind::Unary(u) => u.name()@,
        OpKind::Binary(b) => b.name()@,
        OpKind::Variadic(v) => v.name()@,
        OpKind::Nullary(z) => z.name()@,
        OpKind::Raw(r) => r.name()@,
        OpKind::Unknown => op,
    }
}

/// The name `literal` is read as the literal-expression operator.
proof fn lemma_literal_kind()
    ensures
        op_kind("literal"@) == OpKind::Raw(RawOp::Literal),
{
    reveal(op_kind);
}

/// An expression read with the operator kind `op_kind(op)` has the operator that the kind names.
proof fn lemma_operation_operator(op: String, args: Seq<JsonValue>)
    requires
        spec_operation(op, args) is Ok,
    ensures
        operator_of(spec_operation(op, args)->Ok_0) == (if op_kind(op@) == OpKind::Raw(
            RawOp::Literal,
        ) {
            None
        } else {
            Some(kind_name(op_kind(op@), op@))
        }),
{
    let r = spec_operation(op, args);
    match op_kind(op@) {
        OpKind::Let => assert(r == spec_let(args)),
        OpKind::Var => assert(r == spec_var(args)),
        OpKind::Step => assert(r == spec_step(args)),
        OpKind::Interpolate(space) => assert(r == spec_interpolate(space, args)),
        OpKind::Get => assert(r == spec_get(args)),
        OpKind::Has(negated) => assert(r == spec_has(negated, args)),
        OpKind::In(negated) => assert(r == spec_in(negated, args)),
        OpKind::IndexOf => assert(r == spec_index_of(args)),
        OpKind::Slice => assert(r == spec_slice(args)),
        OpKind::Case => assert(r == spec_case(args)),
        OpKind::Match => assert(r == spec_match(args)),
        OpKind::Sub => assert(r == spec_sub(args)),
        OpKind::Rgb => assert(r == spec_rgb(args)),
        OpKind::Rgba => assert(r == spec_rgba(args)),
        OpKind::ArrayAssertion => assert(r == spec_array_assertion(args)),
        OpKind::Format => assert(r == spec_format_expr(args)),
        OpKind::NumberFormat => assert(r == spec_number_format(args)),
        OpKind::Unary(u) => assert(r == spec_unary(u, args)),
        OpKind::Binary(b) => assert(r == spec_binary(b, args)),
        OpKind::Variadic(v) => assert(r == spec_variadic(v, args)),
        OpKind::Nullary(z) => {},
        OpKind::Raw(raw) => assert(r == spec_raw(raw, args)),
        OpKind::Unknown => {},
    }
}

} // verus!
