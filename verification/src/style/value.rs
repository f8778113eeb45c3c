//! Style property values: a literal of the property's type, an expression,
//! or a legacy zoom function with stops.

use vstd::prelude::*;
use crate::color::{Color, MlColor, css_color, parse_css_color};
use crate::decode::{member, member_of, num_of, variant_name, variant_name_of};
use crate::json::{JsonNumber, JsonValue, Num};
use crate::ml_expr::{MlExpr, MlExprError, spec_expr_array, tree_of};
use crate::text::str_eq;

verus! {

/// How a legacy function interpolates between its stops.
#[derive(Debug, Clone, Copy, PartialEq, Eq)]
pub enum FunctionType {
    Identity,
    Exponential,
    Interval,
    Categorical,
}

/// The color space in which a legacy function interpolates colors.
#[derive(Debug, Default, Clone, Copy, PartialEq, Eq)]
pub enum ColorSpace {
    #[default]
    Rgb,
    Lab,
    Hcl,
}

/// The function type that a name denotes.
pub open spec fn function_type_named(name: Seq<char>) -> Option<FunctionType> {
    if name == "identity"@ {
        Some(FunctionType::Identity)
    } else if name == "exponential"@ {
        Some(FunctionType::Exponential)
    } else if name == "interval"@ {
        Some(FunctionType::Interval)
    } else if name == "categorical"@ {
        Some(FunctionType::Categorical)
    } else {
        None
    }
}

/// The color space that a name denotes.
pub open spec fn color_space_named(name: Seq<char>) -> Option<ColorSpace> {
    if name == "rgb"@ {
        Some(ColorSpace::Rgb)
    } else if name == "lab"@ {
        Some(ColorSpace::Lab)
    } else if name == "hcl"@ {
        Some(ColorSpace::Hcl)
    } else {
        None
    }
}

/// The name of a function type, as written in a style.
pub open spec fn function_type_name(t: FunctionType) -> Seq<char> {
    match t {
        FunctionType::Identity => "identity"@,
        FunctionType::Exponential => "exponential"@,
        FunctionType::Interval => "interval"@,
        FunctionType::Categorical => "categorical"@,
    }
}

/// The name of a color space, as written in a style.
pub open spec fn color_space_name(c: ColorSpace) -> Seq<char> {
    match c {
        ColorSpace::Rgb => "rgb"@,
        ColorSpace::Lab => "lab"@,
        ColorSpace::Hcl => "hcl"@,
    }
}

/// Each function type and color space is read from its own lowercase name, and a name that
/// is read at all is the name of what it reads as, so that distinct names give distinct
/// variants.
pub proof fn law_function_types_and_color_spaces_by_name(t: FunctionType, c: ColorSpace, n: Seq<char>)
    ensures
        function_type_named(function_type_name(t)) == Some(t),
        color_space_named(color_space_name(c)) == Some(c),
        function_type_named(n) matches Some(x) ==> n == function_type_name(x),
        color_space_named(n) matches Some(x) ==> n == color_space_name(x),
{
    reveal_strlit("identity");
    reveal_strlit("exponential");
    reveal_strlit("interval");
    reveal_strlit("categorical");
    reveal_strlit("rgb");
    reveal_strlit("lab");
    reveal_strlit("hcl");
    assert("identity"@[0] != "exponential"@[0]);
    assert("identity"@[2] != "interval"@[2]);
    assert("exponential"@[0] != "interval"@[0]);
    assert("rgb"@[0] != "lab"@[0]);
    assert("rgb"@[0] != "hcl"@[0]);
    assert("lab"@[0] != "hcl"@[0]);
}

impl FunctionType {
    /// Reads a function type from its JSON form.
    pub fn from_json(v: &JsonValue) -> (r: Option<FunctionType>)
        ensures
            r == (match variant_name(*v) {
                Some(n) => function_type_named(n),
                None => None::<FunctionType>,
            }),
    {
        let name = match variant_name_of(v) {
            Some(n) => n,
            None => return None,
        };
        if str_eq(name, "identity") {
            Some(FunctionType::Identity)
        } else if str_eq(name, "exponential") {
            Some(FunctionType::Exponential)
        } else if str_eq(name, "interval") {
            Some(FunctionType::Interval)
        } else if str_eq(name, "categorical") {
            Some(FunctionType::Categorical)
        } else {
            None
        }
    }
}

impl ColorSpace {
    /// Reads a color space from its JSON form.
    pub fn from_json(v: &JsonValue) -> (r: Option<ColorSpace>)
        ensures
            r == (match variant_name(*v) {
                Some(n) => color_space_named(n),
                None => None::<ColorSpace>,
            }),
    {
        let name = match variant_name_of(v) {
            Some(n) => n,
            None => return None,
        };
        if str_eq(name, "rgb") {
            Some(ColorSpace::Rgb)
        } else if str_eq(name, "lab") {
            Some(ColorSpace::Lab)
        } else if str_eq(name, "hcl") {
            Some(ColorSpace::Hcl)
        } else {
            None
        }
    }
}

/// The output types of style properties, and how their values are written in JSON.
pub trait StyleLiteral: Sized {
    /// The literal of this type that a JSON value is, where it is one.
    spec fn literal_spec(v: JsonValue) -> Option<Self>;

    /// The output of a function stop that a JSON value is, where it is one.
    spec fn stop_output_spec(v: JsonValue) -> Option<Self>;

    /// Reads a literal of this type.
    fn literal_from_json(v: &JsonValue) -> (r: Option<Self>)
        ensures
            r == Self::literal_spec(*v),
    ;

    /// Reads the output of a function stop.
    fn stop_output_from_json(v: &JsonValue) -> (r: Option<Self>)
        ensures
            r == Self::stop_output_spec(*v),
    ;
}

impl StyleLiteral for Num {
    open spec fn literal_spec(v: JsonValue) -> Option<Num> {
        num_of(v)
    }

    open spec fn stop_output_spec(v: JsonValue) -> Option<Num> {
        num_of(v)
    }

    fn literal_from_json(v: &JsonValue) -> (r: Option<Num>) {
        match v {
            JsonValue::Number(n) => Some(n.value),
            _ => None,
        }
    }

    fn stop_output_from_json(v: &JsonValue) -> (r: Option<Num>) {
        Self::literal_from_json(v)
    }
}

impl StyleLiteral for bool {
    open spec fn literal_spec(v: JsonValue) -> Option<bool> {
        match v {
            JsonValue::Bool(b) => Some(b),
            _ => None,
        }
    }

    open spec fn stop_output_spec(v: JsonValue) -> Option<bool> {
        Self::literal_spec(v)
    }

    fn literal_from_json(v: &JsonValue) -> (r: Option<bool>) {
        match v {
            JsonValue::Bool(b) => Some(*b),
            _ => None,
        }
    }

    fn stop_output_from_json(v: &JsonValue) -> (r: Option<bool>) {
        Self::literal_from_json(v)
    }
}

impl StyleLiteral for String {
    open spec fn literal_spec(v: JsonValue) -> Option<String> {
        match v {
            JsonValue::String(s) => Some(s),
            _ => None,
        }
    }

    open spec fn stop_output_spec(v: JsonValue) -> Option<String> {
        Self::literal_spec(v)
    }

    fn literal_from_json(v: &JsonValue) -> (r: Option<String>) {
        match v {
            JsonValue::String(s) => Some(s.clone()),
            _ => None,
        }
    }

    fn stop_output_from_json(v: &JsonValue) -> (r: Option<String>) {
        Self::literal_from_json(v)
    }
}

impl StyleLiteral for MlColor {
    /// A color literal is a string that parses as a CSS color.
    open spec fn literal_spec(v: JsonValue) -> Option<MlColor> {
        match v {
            JsonValue::String(s) => match css_color(s@) {
                Some(c) => Some(MlColor(c)),
                None => None,
            },
            _ => None,
        }
    }

    /// A color stop output is a string; where it is no CSS color, the color is transparent.
    open spec fn stop_output_spec(v: JsonValue) -> Option<MlColor> {
        match v {
            JsonValue::String(s) => match css_color(s@) {
                Some(c) => Some(MlColor(c)),
                None => Some(MlColor(Color { r: 0, g: 0, b: 0, a: 0 })),
            },
            _ => None,
        }
    }

    fn literal_from_json(v: &JsonValue) -> (r: Option<MlColor>) {
        match v {
            JsonValue::String(s) => MlColor::from_css(s.as_str()),
            _ => None,
        }
    }

    fn stop_output_from_json(v: &JsonValue) -> (r: Option<MlColor>) {
        match v {
            JsonValue::String(s) => match parse_css_color(s.as_str()) {
                Some(c) => Some(MlColor(c)),
                None => Some(MlColor(Color::transparent())),
            },
            _ => None,
        }
    }
}

/// One stop of a legacy function: the output expected at an input zoom level.
#[derive(Debug, PartialEq)]
pub struct FunctionStop<T> {
    pub input: Num,
    pub output: T,
}

/// The stop that a JSON value is: a two-element array of a number and an output.
pub open spec fn stop_of<T: StyleLiteral>(v: JsonValue) -> Option<FunctionStop<T>> {
    match v {
        JsonValue::Array(a) => if a@.len() == 2 {
            match (num_of(a@[0]), T::stop_output_spec(a@[1])) {
                (Some(input), Some(output)) => Some(FunctionStop { input, output }),
                _ => None,
            }
        } else {
            None
        },
        _ => None,
    }
}

impl<T: StyleLiteral> FunctionStop<T> {
    /// Reads a stop `[input, output]`.
    pub fn from_json(v: &JsonValue) -> (r: Option<FunctionStop<T>>)
        ensures
            r == stop_of::<T>(*v),
    {
        match v {
            JsonValue::Array(a) => {
                if a.len() != 2 {
                    return None;
                }
                let input = match &a[0] {
                    JsonValue::Number(n) => n.value,
                    _ => return None,
                };
                match T::stop_output_from_json(&a[1]) {
                    Some(output) => Some(FunctionStop { input, output }),
                    None => None,
                }
            },
            _ => None,
        }
    }
}

/// A legacy zoom function: stops, and how to interpolate between them.
#[derive(Debug, PartialEq)]
pub struct Function<T> {
    pub stops: Vec<FunctionStop<T>>,
    pub base: Num,
    pub property: Option<String>,
    pub function_type: Option<FunctionType>,
    pub default: Option<T>,
    pub color_space: Option<ColorSpace>,
}

/// The exponential base that a function has when it names none, `1.0`.
pub open spec fn default_base_num() -> Num {
    Num { bits: 0x3FF0_0000_0000_0000 }
}

/// The base of a function: a number where one is given, `1.0` otherwise.
pub fn default_base() -> (r: Num)
    ensures
        r == default_base_num(),
{
    Num { bits: 0x3FF0_0000_0000_0000 }
}

/// The stops member: absent is no stops, otherwise an array of stops.
pub open spec fn stops_ok<T: StyleLiteral>(v: Option<JsonValue>) -> bool {
    match v {
        None => true,
        Some(JsonValue::Array(items)) => forall|i: int|
            0 <= i < items@.len() ==> (#[trigger] stop_of::<T>(items@[i])) is Some,
        Some(_) => false,
    }
}

/// `stops` are the stops that the stops member gives.
pub open spec fn stops_are<T: StyleLiteral>(v: Option<JsonValue>, stops: Seq<FunctionStop<T>>) -> bool {
    match v {
        None => stops.len() == 0,
        Some(JsonValue::Array(items)) => {
            &&& stops.len() == items@.len()
            &&& forall|i: int|
                0 <= i < items@.len() ==> stop_of::<T>(#[trigger] items@[i]) == Some(stops[i])
        },
        Some(_) => false,
    }
}

/// An optional member: absent or `null` is `None`, otherwise the value must read.
pub open spec fn optional_ok<A>(v: Option<JsonValue>, read: spec_fn(JsonValue) -> Option<A>) -> bool {
    match v {
        None => true,
        Some(JsonValue::Null) => true,
        Some(x) => read(x) is Some,
    }
}

/// The value of an optional member that reads.
pub open spec fn optional_value<A>(v: Option<JsonValue>, read: spec_fn(JsonValue) -> Option<A>) -> Option<A> {
    match v {
        None => None,
        Some(JsonValue::Null) => None,
        Some(x) => read(x),
    }
}

/// The property name of a function, where the member is a string.
pub open spec fn string_of_json(v: JsonValue) -> Option<String> {
    match v {
        JsonValue::String(s) => Some(s),
        _ => None,
    }
}

/// A function type read from its JSON form.
pub open spec fn function_type_of(v: JsonValue) -> Option<FunctionType> {
    match variant_name(v) {
        Some(n) => function_type_named(n),
        None => None,
    }
}

/// A color space read from its JSON form.
pub open spec fn color_space_of(v: JsonValue) -> Option<ColorSpace> {
    match variant_name(v) {
        Some(n) => color_space_named(n),
        None => None,
    }
}

/// The base member: absent, `null` or no number is `1.0`.
pub open spec fn base_of(v: Option<JsonValue>) -> Num {
    match v {
        Some(x) => match num_of(x) {
            Some(n) => n,
            None => default_base_num(),
        },
        None => default_base_num(),
    }
}

/// Whether the members of an object make a function.
pub open spec fn function_ok<T: StyleLiteral>(m: Seq<(String, JsonValue)>) -> bool {
    &&& stops_ok::<T>(member_of(m, "stops"@))
    &&& optional_ok(member_of(m, "property"@), |x: JsonValue| string_of_json(x))
    &&& optional_ok(member_of(m, "type"@), |x: JsonValue| function_type_of(x))
    &&& optional_ok(member_of(m, "default"@), |x: JsonValue| T::literal_spec(x))
    &&& optional_ok(member_of(m, "colorSpace"@), |x: JsonValue| color_space_of(x))
}

/// `f` is the function that the members of an object make.
pub open spec fn function_is<T: StyleLiteral>(m: Seq<(String, JsonValue)>, f: Function<T>) -> bool {
    &&& stops_are::<T>(member_of(m, "stops"@), f.stops@)
    &&& f.base == base_of(member_of(m, "base"@))
    &&& f.property == optional_value(member_of(m, "property"@), |x: JsonValue| string_of_json(x))
    &&& f.function_type == optional_value(member_of(m, "type"@), |x: JsonValue| function_type_of(x))
    &&& f.default == optional_value(member_of(m, "default"@), |x: JsonValue| T::literal_spec(x))
    &&& f.color_space == optional_value(member_of(m, "colorSpace"@), |x: JsonValue| color_space_of(x))
}

/// Reads the stops member.
fn read_stops<T: StyleLiteral>(v: Option<&JsonValue>) -> (r: Option<Vec<FunctionStop<T>>>)
    ensures
        ({
            let sv = match v {
                Some(x) => Some(*x),
                None => None::<JsonValue>,
            };
            match r {
                Some(stops) => stops_ok::<T>(sv) && stops_are::<T>(sv, stops@),
                None => !stops_ok::<T>(sv),
            }
        }),
{
    match v {
        None => Some(Vec::new()),
        Some(JsonValue::Array(items)) => {
            let mut out: Vec<FunctionStop<T>> = Vec::new();
            let mut i: usize = 0;
            while i < items.len()
                invariant
                    v == Some(&JsonValue::Array(*items)),
                    i <= items@.len(),
                    out@.len() == i,
                    forall|k: int| 0 <= k < i ==> stop_of::<T>(#[trigger] items@[k]) == Some(out@[k]),
                decreases items@.len() - i,
            {
                match FunctionStop::<T>::from_json(&items[i]) {
                    Some(s) => out.push(s),
                    None => {
                        assert(stop_of::<T>(items@[i as int]) is None);
                        return None;
                    },
                }
                i = i + 1;
            }
            Some(out)
        },
        Some(_) => None,
    }
}

impl<T: StyleLiteral> Function<T> {
    /// Reads a legacy function from the members of a JSON object.
    pub fn from_members(m: &Vec<(String, JsonValue)>) -> (r: Option<Function<T>>)
        ensures
            match r {
                Some(f) => function_ok::<T>(m@) && function_is::<T>(m@, f),
                None => !function_ok::<T>(m@),
            },
    {
        proof {
            reveal_strlit("stops");
            reveal_strlit("base");
            reveal_strlit("property");
            reveal_strlit("type");
            reveal_strlit("default");
            reveal_strlit("colorSpace");
        }
        let stops = match read_stops::<T>(member(m, "stops")) {
            Some(s) => s,
            None => return None,
        };
        let base = match member(m, "base") {
            Some(JsonValue::Number(n)) => n.value,
            _ => default_base(),
        };
        let property = match member(m, "property") {
            None => None,
            Some(JsonValue::Null) => None,
            Some(JsonValue::String(s)) => Some(s.clone()),
            Some(_) => return None,
        };
        let function_type = match member(m, "type") {
            None => None,
            Some(JsonValue::Null) => None,
            Some(x) => match FunctionType::from_json(x) {
                Some(t) => Some(t),
                None => return None,
            },
        };
        let default = match member(m, "default") {
            None => None,
            Some(JsonValue::Null) => None,
            Some(x) => match T::literal_from_json(x) {
                Some(t) => Some(t),
                None => return None,
            },
        };
        let color_space = match member(m, "colorSpace") {
            None => None,
            Some(JsonValue::Null) => None,
            Some(x) => match ColorSpace::from_json(x) {
                Some(c) => Some(c),
                None => return None,
            },
        };
        Some(Function { stops, base, property, function_type, default, color_space })
    }
}

/// A legacy function keeps its stops in the order written: where the `stops` member is an
/// array, the function has one stop per item, and the k-th stop holds the number and the
/// output of the k-th pair. A function without a `base` number has base `1.0`, and one with
/// a `base` number has that number.
pub proof fn law_function_stops_in_written_order<T: StyleLiteral>(
    m: Seq<(String, JsonValue)>,
    f: Function<T>,
    items: Vec<JsonValue>,
    pair: Vec<JsonValue>,
    k: int,
)
    requires
        function_ok::<T>(m),
        function_is::<T>(m, f),
        member_of(m, "stops"@) == Some(JsonValue::Array(items)),
        0 <= k < items@.len(),
        items@[k] == JsonValue::Array(pair),
    ensures
        f.stops@.len() == items@.len(),
        pair@.len() == 2,
        num_of(pair@[0]) == Some(f.stops@[k].input),
        T::stop_output_spec(pair@[1]) == Some(f.stops@[k].output),
        member_of(m, "base"@) is None ==> f.base == default_base_num(),
        forall|n: JsonNumber|
            member_of(m, "base"@) == Some(JsonValue::Number(n)) ==> f.base == n.value,
{
    assert(stop_of::<T>(items@[k]) == Some(f.stops@[k]));
}

/// A style property value that produces a `T`.
#[derive(Debug, PartialEq)]
pub enum MlStyleValue<T> {
    /// A literal value of the property's type.
    Literal(T),
    /// An expression, written as a JSON array.
    Expression(MlExpr),
    /// A legacy zoom function, written as a JSON object.
    Function(Function<T>),
}

/// Whether a JSON value is a style value of type `T`: a literal of the type, an array that
/// parses as an expression, or an object that makes a function.
pub open spec fn style_value_ok<T: StyleLiteral>(v: JsonValue) -> bool {
    ||| T::literal_spec(v) is Some
    ||| (v matches JsonValue::Array(arr) && spec_expr_array(arr) is Ok)
    ||| (v matches JsonValue::Object(m) && function_ok::<T>(m@))
}

/// `s` is the style value that the JSON value `v` is.
pub open spec fn style_value_is<T: StyleLiteral>(v: JsonValue, s: MlStyleValue<T>) -> bool {
    match T::literal_spec(v) {
        Some(l) => s == MlStyleValue::<T>::Literal(l),
        None => match v {
            JsonValue::Array(arr) => s matches MlStyleValue::Expression(e) && spec_expr_array(arr)
                == Ok::<_, MlExprError>(tree_of(e)),
            JsonValue::Object(m) => s matches MlStyleValue::Function(f) && function_is::<T>(m@, f),
            _ => false,
        },
    }
}

impl<T: StyleLiteral> MlStyleValue<T> {
    /// Reads a style value: a literal of the property's type is tried first, then an
    /// expression for an array, then a function for an object. `None` where none fits.
    pub fn from_json(v: JsonValue) -> (r: Option<MlStyleValue<T>>)
        ensures
            match r {
                Some(s) => style_value_ok::<T>(v) && style_value_is::<T>(v, s),
                None => !style_value_ok::<T>(v),
            },
    {
        match T::literal_from_json(&v) {
            Some(l) => return Some(MlStyleValue::Literal(l)),
            None => {},
        }
        match v {
            JsonValue::Array(arr) => match MlExpr::from_json(JsonValue::Array(arr)) {
                Ok(e) => Some(MlStyleValue::Expression(e)),
                Err(_) => None,
            },
            JsonValue::Object(m) => match Function::<T>::from_members(&m) {
                Some(f) => Some(MlStyleValue::Function(f)),
                None => None,
            },
            _ => None,
        }
    }

    /// Whether this is a literal.
    pub fn is_literal(&self) -> (r: bool)
        ensures
            r == (*self is Literal),
    {
        match self {
            MlStyleValue::Literal(_) => true,
            _ => false,
        }
    }

    /// The literal, where this is one.
    pub fn as_literal(&self) -> (r: Option<&T>)
        ensures
            match *self {
                MlStyleValue::Literal(l) => r == Some(&l),
                _ => r is None,
            },
    {
        match self {
            MlStyleValue::Literal(l) => Some(l),
            _ => None,
        }
    }

    /// Whether this is an expression.
    pub fn is_expression(&self) -> (r: bool)
        ensures
            r == (*self is Expression),
    {
        match self {
            MlStyleValue::Expression(_) => true,
            _ => false,
        }
    }

    /// The expression, where this is one.
    pub fn as_expression(&self) -> (r: Option<&MlExpr>)
        ensures
            match *self {
                MlStyleValue::Expression(e) => r == Some(&e),
                _ => r is None,
            },
    {
        match self {
            MlStyleValue::Expression(e) => Some(e),
            _ => None,
        }
    }

    /// Whether this is a legacy function.
    pub fn is_function(&self) -> (r: bool)
        ensures
            r == (*self is Function),
    {
        match self {
            MlStyleValue::Function(_) => true,
            _ => false,
        }
    }

    /// The legacy function, where this is one.
    pub fn as_function(&self) -> (r: Option<&Function<T>>)
        ensures
            match *self {
                MlStyleValue::Function(f) => r == Some(&f),
                _ => r is None,
            },
    {
        match self {
            MlStyleValue::Function(f) => Some(f),
            _ => None,
        }
    }

    /// A literal style value.
    pub fn from_literal(v: T) -> (r: MlStyleValue<T>)
        ensures
            r == MlStyleValue::<T>::Literal(v),
    {
        MlStyleValue::Literal(v)
    }
}

} // verus!
