//! Galileo feature expressions: the expression tree that vector tile style
//! rules are written in, and the values that it computes.

use vstd::prelude::*;
use crate::color::Color;
use crate::json::Num;

verus! {

/// The geometry type of a feature.
#[derive(Debug, Copy, Clone, PartialEq, Eq)]
pub enum ExprGeometryType {
    NoGeometry,
    Point,
    Line,
    Polygon,
    MultiLine,
    MultiPolygon,
}

/// A value computed by an expression.
#[derive(Debug, PartialEq)]
pub enum ExprValue {
    Null,
    Boolean(bool),
    Number(Num),
    Color(Color),
    String(String),
    GeomType(ExprGeometryType),
    NumArray(Vec<Num>),
}

/// An expression evaluated against a feature and a map view.
#[derive(Debug, PartialEq)]
pub enum Expr {
    All(Vec<Expr>),
    Any(Vec<Expr>),
    Not(Box<Expr>),
    Eq(Box<Expr>, Box<Expr>),
    Ne(Box<Expr>, Box<Expr>),
    Gt(Box<Expr>, Box<Expr>),
    Gte(Box<Expr>, Box<Expr>),
    Lt(Box<Expr>, Box<Expr>),
    Lte(Box<Expr>, Box<Expr>),
    Get(String),
    In { needle: Box<Expr>, haystack: Vec<Expr> },
    GeomType,
    Zoom,
    Linear(Box<LinearInterpolation>),
    Exponential(Box<ExponentialInterpolation>),
    CubicBezier(Box<CubicBezierInterpolation>),
    Match(Box<MatchExpr>),
    WithOpacity(WithOpacityExpr),
    Value(ExprValue),
}

/// A point of an interpolation curve: the output expected at an input.
#[derive(Debug, PartialEq)]
pub struct ControlPoint {
    pub input: Expr,
    pub output: Expr,
}

/// Linear interpolation between control points.
#[derive(Debug, PartialEq)]
pub struct LinearInterpolation {
    pub input: Expr,
    pub control_points: Vec<ControlPoint>,
}

/// Exponential interpolation between control points.
#[derive(Debug, PartialEq)]
pub struct ExponentialInterpolation {
    pub base: Num,
    pub input: Expr,
    pub control_points: Vec<ControlPoint>,
}

/// Interpolation along a cubic Bézier curve between control points.
#[derive(Debug, PartialEq)]
pub struct CubicBezierInterpolation {
    pub input: Expr,
    pub control_points: Vec<ControlPoint>,
    pub curve_params: [Num; 4],
}

/// Selects the output of the first case that lists the input value.
#[derive(Debug, PartialEq)]
pub struct MatchExpr {
    pub input: Expr,
    pub cases: Vec<MatchCase>,
    pub fallback: Expr,
}

/// The values that select a case of a [`MatchExpr`], and its output.
#[derive(Debug, PartialEq)]
pub struct MatchCase {
    pub in_values: Vec<ExprValue>,
    pub out: Expr,
}

/// A color expression with its alpha channel set from an opacity expression.
#[derive(Debug, PartialEq)]
pub struct WithOpacityExpr {
    pub color: Box<Expr>,
    pub opacity: Box<Expr>,
}

/// Two values are the same: number arrays by their elements, all others as they are.
pub open spec fn same_value(a: ExprValue, b: ExprValue) -> bool {
    match (a, b) {
        (ExprValue::NumArray(x), ExprValue::NumArray(y)) => x@ == y@,
        _ => a == b,
    }
}

impl ExprValue {
    /// The boolean, where the value is one.
    pub fn as_bool(&self) -> (r: Option<bool>)
        ensures
            r == (match *self {
                ExprValue::Boolean(v) => Some(v),
                _ => None::<bool>,
            }),
    {
        match self {
            ExprValue::Boolean(v) => Some(*v),
            _ => None,
        }
    }

    /// The number, where the value is one.
    pub fn as_number(&self) -> (r: Option<Num>)
        ensures
            r == (match *self {
                ExprValue::Number(v) => Some(v),
                _ => None::<Num>,
            }),
    {
        match self {
            ExprValue::Number(v) => Some(*v),
            _ => None,
        }
    }

    /// The color, where the value is one.
    pub fn as_color(&self) -> (r: Option<Color>)
        ensures
            r == (match *self {
                ExprValue::Color(v) => Some(v),
                _ => None::<Color>,
            }),
    {
        match self {
            ExprValue::Color(v) => Some(*v),
            _ => None,
        }
    }

    /// The number, where the value is one.
    pub fn as_f64(&self) -> (r: Option<Num>)
        ensures
            r == (match *self {
                ExprValue::Number(v) => Some(v),
                _ => None::<Num>,
            }),
    {
        self.as_number()
    }

    /// The value as a condition: only `true` itself is true.
    pub fn to_bool(&self) -> (r: bool)
        ensures
            r == (*self == ExprValue::Boolean(true)),
    {
        match self.as_bool() {
            Some(b) => b,
            None => false,
        }
    }

    /// Whether the value is `Null`.
    pub fn is_null(&self) -> (r: bool)
        ensures
            r == (*self is Null),
    {
        match self {
            ExprValue::Null => true,
            _ => false,
        }
    }

    /// A copy of the value.
    pub fn owned(&self) -> (r: ExprValue)
        ensures
            same_value(r, *self),
    {
        match self {
            ExprValue::Null => ExprValue::Null,
            ExprValue::Boolean(v) => ExprValue::Boolean(*v),
            ExprValue::Number(v) => ExprValue::Number(*v),
            ExprValue::Color(v) => ExprValue::Color(*v),
            ExprValue::String(s) => ExprValue::String(s.clone()),
            ExprValue::GeomType(v) => ExprValue::GeomType(*v),
            ExprValue::NumArray(a) => {
                let mut out: Vec<Num> = Vec::new();
                let mut i: usize = 0;
                while i < a.len()
                    invariant
                        i <= a@.len(),
                        out@ == a@.subrange(0, i as int),
                    decreases a@.len() - i,
                {
                    out.push(a[i]);
                    i = i + 1;
                }
                assert(out@ =~= a@);
                ExprValue::NumArray(out)
            },
        }
    }

    /// A copy of the value; values are always held whole here.
    pub fn borrowed(&self) -> (r: ExprValue)
        ensures
            same_value(r, *self),
    {
        self.owned()
    }
}

/// What an expression reads of a feature.
pub trait ExprFeature {
    /// The value of the named property of the feature.
    fn property(&self, property_name: &str) -> ExprValue;

    /// The geometry type of the feature.
    fn geom_type(&self) -> ExprGeometryType;
}

/// A feature with no properties and no geometry.
#[derive(Debug, Clone, Copy, PartialEq, Eq)]
pub struct EmptyExprFeature;

impl ExprFeature for EmptyExprFeature {
    fn property(&self, property_name: &str) -> (r: ExprValue)
        ensures
            r == ExprValue::Null,
    {
        ExprValue::Null
    }

    fn geom_type(&self) -> (r: ExprGeometryType)
        ensures
            r == ExprGeometryType::NoGeometry,
    {
        ExprGeometryType::NoGeometry
    }
}

} // verus!
