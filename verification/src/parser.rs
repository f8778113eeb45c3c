//! The text syntax of Galileo expressions, such as `kind == "road"` or
//! `any([is_bridge, layer > 0])`.
//!
//! Grammar, read with ordered choice (the first alternative that parses wins):
//!
//! ```text
//! expr     := binary | atom
//! binary   := atom operator atom
//! atom     := block | literal | call | property | invalid
//! block    := '(' expr ')'
//! literal  := ws (bool | null | hex | number | string) ws, followed by an operator,
//!             one of `()[],` or the end
//! call     := ws ident '(' [arg (',' arg)* [',']] ')' ws
//! arg      := ws (array | tuple | expr) ws
//! array    := '[' [expr (',' expr)* [',']] ']'
//! tuple    := '(' expr (',' expr)+ [','] ')'
//! property := ws ident ws
//! invalid  := one or more characters, each not at an operator, one of `()[],` or the end
//! operator := ws ('==' | '!=' | '>=' | '>' | '<=' | '<') ws
//! ```
//!
//! Calls are checked once parsed (the function must exist and get arguments of the right
//! kinds), and `invalid` always reports an error; both still parse, so that parsing goes on
//! and every error is reported. A text is an expression when it parses whole and no error
//! was reported. Number literals take the binary64 value that the caller read for the
//! literal starting at each position.

use vstd::prelude::*;
use vstd::string::*;
use crate::color::Color;
use crate::expr::{Expr, ExprValue};
use crate::json::Num;
use crate::text::str_eq;
use crate::tile_url::decimal;

verus! {

/// The comparison operators of the text syntax.
#[derive(Debug, Clone, Copy, PartialEq, Eq)]
pub enum Comparison {
    Eq,
    Ne,
    Gt,
    Gte,
    Lt,
    Lte,
}

/// The shape of the expressions that the text syntax writes.
pub enum PExpr {
    Null,
    Bool(bool),
    Number(Num),
    Color(Color),
    Str(Seq<char>),
    Get(Seq<char>),
    Compare(Comparison, Box<PExpr>, Box<PExpr>),
    All(Seq<PExpr>),
    Any(Seq<PExpr>),
    Not(Box<PExpr>),
    In(Box<PExpr>, Seq<PExpr>),
    GeomType,
    Zoom,
    /// An expression that the text syntax cannot write.
    Other,
}

/// The shape of an expression.
pub open spec fn pview(e: Expr) -> PExpr
    decreases e,
{
    match e {
        Expr::Value(ExprValue::Null) => PExpr::Null,
        Expr::Value(ExprValue::Boolean(b)) => PExpr::Bool(b),
        Expr::Value(ExprValue::Number(n)) => PExpr::Number(n),
        Expr::Value(ExprValue::Color(c)) => PExpr::Color(c),
        Expr::Value(ExprValue::String(s)) => PExpr::Str(s@),
        Expr::Get(s) => PExpr::Get(s@),
        Expr::Eq(a, b) => PExpr::Compare(Comparison::Eq, Box::new(pview(*a)), Box::new(pview(*b))),
        Expr::Ne(a, b) => PExpr::Compare(Comparison::Ne, Box::new(pview(*a)), Box::new(pview(*b))),
        Expr::Gt(a, b) => PExpr::Compare(Comparison::Gt, Box::new(pview(*a)), Box::new(pview(*b))),
        Expr::Gte(a, b) => PExpr::Compare(Comparison::Gte, Box::new(pview(*a)), Box::new(pview(*b))),
        Expr::Lt(a, b) => PExpr::Compare(Comparison::Lt, Box::new(pview(*a)), Box::new(pview(*b))),
        Expr::Lte(a, b) => PExpr::Compare(Comparison::Lte, Box::new(pview(*a)), Box::new(pview(*b))),
        Expr::All(v) => PExpr::All(
            Seq::new(v@.len(), |i: int| if 0 <= i < v@.len() { pview(v@[i]) } else { PExpr::Other }),
        ),
        Expr::Any(v) => PExpr::Any(
            Seq::new(v@.len(), |i: int| if 0 <= i < v@.len() { pview(v@[i]) } else { PExpr::Other }),
        ),
        Expr::Not(a) => PExpr::Not(Box::new(pview(*a))),
        Expr::In { needle, haystack } => PExpr::In(
            Box::new(pview(*needle)),
            Seq::new(
                haystack@.len(),
                |i: int| if 0 <= i < haystack@.len() { pview(haystack@[i]) } else { PExpr::Other },
            ),
        ),
        Expr::GeomType => PExpr::GeomType,
        Expr::Zoom => PExpr::Zoom,
        _ => PExpr::Other,
    }
}

/// The shapes of a list of expressions.
pub open spec fn pviews(v: Seq<Expr>) -> Seq<PExpr> {
    Seq::new(v.len(), |i: int| pview(v[i]))
}

/// Whether a character is white space, as `char::is_whitespace` defines it.
pub open spec fn is_ws(c: char) -> bool {
    ||| c == ' '
    ||| ('\u{9}' <= c && c <= '\u{d}')
    ||| c == '\u{85}'
    ||| c == '\u{a0}'
    ||| c == '\u{1680}'
    ||| ('\u{2000}' <= c && c <= '\u{200a}')
    ||| c == '\u{2028}'
    ||| c == '\u{2029}'
    ||| c == '\u{202f}'
    ||| c == '\u{205f}'
    ||| c == '\u{3000}'
}

/// Whether a character can start an identifier: an ASCII letter or `_`.
pub open spec fn is_ident_start(c: char) -> bool {
    ('a' <= c && c <= 'z') || ('A' <= c && c <= 'Z') || c == '_'
}

/// Whether a character can continue an identifier: an ASCII letter or digit, or `_`.
pub open spec fn is_ident_cont(c: char) -> bool {
    is_ident_start(c) || ('0' <= c && c <= '9')
}

pub open spec fn is_digit(c: char) -> bool {
    '0' <= c && c <= '9'
}

pub open spec fn is_hex_digit(c: char) -> bool {
    is_digit(c) || ('a' <= c && c <= 'f') || ('A' <= c && c <= 'F')
}

/// The position after the white space at `i`.
pub open spec fn skip_ws(s: Seq<char>, i: int) -> int
    decreases s.len() - i,
{
    if 0 <= i < s.len() && is_ws(s[i]) {
        skip_ws(s, i + 1)
    } else {
        i
    }
}

/// The position after the identifier characters at `i`.
pub open spec fn ident_cont_end(s: Seq<char>, i: int) -> int
    decreases s.len() - i,
{
    if 0 <= i < s.len() && is_ident_cont(s[i]) {
        ident_cont_end(s, i + 1)
    } else {
        i
    }
}

/// The position after the identifier at `i`, where one starts there.
pub open spec fn ident_end(s: Seq<char>, i: int) -> Option<int> {
    if 0 <= i < s.len() && is_ident_start(s[i]) {
        Some(ident_cont_end(s, i + 1))
    } else {
        None
    }
}

/// The position after the digits at `i`.
pub open spec fn digits_end(s: Seq<char>, i: int) -> int
    decreases s.len() - i,
{
    if 0 <= i < s.len() && is_digit(s[i]) {
        digits_end(s, i + 1)
    } else {
        i
    }
}

/// Whether `word` is written at `i`.
pub open spec fn word_at(s: Seq<char>, i: int, word: Seq<char>) -> bool {
    0 <= i && i + word.len() <= s.len() && s.subrange(i, i + word.len()) == word
}

/// The unpadded operator at `i`, tried in the order `==`, `!=`, `>=`, `>`, `<=`, `<`, so
/// that a two-character operator is read whole.
pub open spec fn op_at(s: Seq<char>, i: int) -> Option<(Comparison, int)> {
    if word_at(s, i, seq!['=', '=']) {
        Some((Comparison::Eq, i + 2))
    } else if word_at(s, i, seq!['!', '=']) {
        Some((Comparison::Ne, i + 2))
    } else if word_at(s, i, seq!['>', '=']) {
        Some((Comparison::Gte, i + 2))
    } else if word_at(s, i, seq!['>']) {
        Some((Comparison::Gt, i + 1))
    } else if word_at(s, i, seq!['<', '=']) {
        Some((Comparison::Lte, i + 2))
    } else if word_at(s, i, seq!['<']) {
        Some((Comparison::Lt, i + 1))
    } else {
        None
    }
}

/// The operator at `i`, with the white space around it.
pub open spec fn operator(s: Seq<char>, i: int) -> Option<(Comparison, int)> {
    match op_at(s, skip_ws(s, i)) {
        Some((op, j)) => Some((op, skip_ws(s, j))),
        None => None,
    }
}

/// Whether an atom may end before `i`: an operator, one of `()[],`, or the end follows.
pub open spec fn boundary(s: Seq<char>, i: int) -> bool {
    ||| operator(s, i) is Some
    ||| (0 <= i < s.len() && (s[i] == '(' || s[i] == ')' || s[i] == '[' || s[i] == ']' || s[i]
        == ','))
    ||| i == s.len()
}

/// The position after the hex digits at `i`, taking at most `max` of them.
pub open spec fn hex_run_end(s: Seq<char>, i: int, max: nat) -> int
    decreases max,
{
    if max > 0 && 0 <= i < s.len() && is_hex_digit(s[i]) {
        hex_run_end(s, i + 1, (max - 1) as nat)
    } else {
        i
    }
}

/// The value of a hex digit.
pub open spec fn hex_val(c: char) -> nat {
    if is_digit(c) {
        (c as nat - '0' as nat) as nat
    } else if 'a' <= c && c <= 'f' {
        (c as nat - 'a' as nat + 10) as nat
    } else {
        (c as nat - 'A' as nat + 10) as nat
    }
}

/// The byte written by the two hex digits at `i`.
pub open spec fn hex_byte(s: Seq<char>, i: int) -> u8 {
    (hex_val(s[i]) * 16 + hex_val(s[i + 1])) as u8
}

/// The color written by the 6 or 8 hex digits at `i`; six digits are fully opaque.
pub open spec fn hex_color(s: Seq<char>, i: int, digits: int) -> Color {
    Color {
        r: hex_byte(s, i),
        g: hex_byte(s, i + 2),
        b: hex_byte(s, i + 4),
        a: if digits == 8 {
            hex_byte(s, i + 6)
        } else {
            255
        },
    }
}

/// A hex color lists its channels in the order red, green, blue and, with eight digits,
/// alpha, each as two hex digits, the first the high one; six digits are fully opaque. A hex
/// digit is worth its value: `0`-`9` their digit, `a`-`f` and `A`-`F` ten to fifteen.
pub proof fn law_hex_color_channels(s: Seq<char>, i: int, c: char)
    ensures
        hex_color(s, i, 6) == (Color {
            r: (hex_val(s[i]) * 16 + hex_val(s[i + 1])) as u8,
            g: (hex_val(s[i + 2]) * 16 + hex_val(s[i + 3])) as u8,
            b: (hex_val(s[i + 4]) * 16 + hex_val(s[i + 5])) as u8,
            a: 255,
        }),
        hex_color(s, i, 8) == (Color {
            r: (hex_val(s[i]) * 16 + hex_val(s[i + 1])) as u8,
            g: (hex_val(s[i + 2]) * 16 + hex_val(s[i + 3])) as u8,
            b: (hex_val(s[i + 4]) * 16 + hex_val(s[i + 5])) as u8,
            a: (hex_val(s[i + 6]) * 16 + hex_val(s[i + 7])) as u8,
        }),
        '0' <= c <= '9' ==> hex_val(c) == c as nat - '0' as nat,
        'a' <= c <= 'f' ==> hex_val(c) == c as nat - 'a' as nat + 10,
        'A' <= c <= 'F' ==> hex_val(c) == c as nat - 'A' as nat + 10,
{
}

/// The position after the number literal at `i`: digits, an optional fraction `.` with
/// optional digits, and an optional exponent `e`/`E` with optional sign and digits.
pub open spec fn number_end(s: Seq<char>, i: int) -> Option<int> {
    let d1 = digits_end(s, i);
    if d1 == i {
        None
    } else {
        let d2 = if 0 <= d1 < s.len() && s[d1] == '.' {
            digits_end(s, d1 + 1)
        } else {
            d1
        };
        let d3 = if 0 <= d2 < s.len() && (s[d2] == 'e' || s[d2] == 'E') {
            let p = if d2 + 1 < s.len() && (s[d2 + 1] == '-' || s[d2 + 1] == '+') {
                d2 + 2
            } else {
                d2 + 1
            };
            let e = digits_end(s, p);
            if e > p {
                e
            } else {
                d2
            }
        } else {
            d2
        };
        Some(d3)
    }
}

/// The contents and end of the string literal body at `i` that ends with `q`, where `\q`
/// writes `q`.
pub open spec fn string_body(s: Seq<char>, i: int, q: char) -> Option<(Seq<char>, int)>
    decreases s.len() - i,
{
    if i < 0 || i >= s.len() {
        None
    } else if s[i] == q {
        Some((Seq::empty(), i + 1))
    } else if s[i] == '\\' {
        if i + 1 < s.len() && s[i + 1] == q {
            match string_body(s, i + 2, q) {
                Some((rest, e)) => Some((seq![q] + rest, e)),
                None => None,
            }
        } else {
            None
        }
    } else {
        match string_body(s, i + 1, q) {
            Some((rest, e)) => Some((seq![s[i]] + rest, e)),
            None => None,
        }
    }
}

/// The unpadded literal at `i`: `true`, `false`, `null`, a hex color, a number or a string.
pub open spec fn literal_core(s: Seq<char>, i: int, nums: Seq<Option<Num>>) -> Option<(PExpr, int)> {
    if word_at(s, i, seq!['t', 'r', 'u', 'e']) {
        Some((PExpr::Bool(true), i + 4))
    } else if word_at(s, i, seq!['f', 'a', 'l', 's', 'e']) {
        Some((PExpr::Bool(false), i + 5))
    } else if word_at(s, i, seq!['n', 'u', 'l', 'l']) {
        Some((PExpr::Null, i + 4))
    } else if 0 <= i < s.len() && s[i] == '#' {
        let e = hex_run_end(s, i + 1, 8);
        if e - (i + 1) == 6 || e - (i + 1) == 8 {
            Some((PExpr::Color(hex_color(s, i + 1, e - (i + 1))), e))
        } else {
            None
        }
    } else if number_end(s, i) is Some {
        match (number_end(s, i), nums[i]) {
            (Some(e), Some(n)) => Some((PExpr::Number(n), e)),
            _ => None,
        }
    } else if 0 <= i < s.len() && (s[i] == '"' || s[i] == '\'') {
        match string_body(s, i + 1, s[i]) {
            Some((body, e)) => Some((PExpr::Str(body), e)),
            None => None,
        }
    } else {
        None
    }
}

/// The literal at `i`, with white space around it, where an atom may end after it.
pub open spec fn literal(s: Seq<char>, i: int, nums: Seq<Option<Num>>) -> Option<(PExpr, int)> {
    match literal_core(s, skip_ws(s, i), nums) {
        Some((v, e)) => {
            let b = skip_ws(s, e);
            if boundary(s, b) {
                Some((v, b))
            } else {
                None
            }
        },
        None => None,
    }
}

/// The property read at `i`: an identifier with white space around it.
pub open spec fn property(s: Seq<char>, i: int) -> Option<(PExpr, int)> {
    let a = skip_ws(s, i);
    match ident_end(s, a) {
        Some(e) => Some((PExpr::Get(s.subrange(a, e)), skip_ws(s, e))),
        None => None,
    }
}

/// The position after the characters at `i` that are not at an atom boundary.
pub open spec fn invalid_end(s: Seq<char>, i: int) -> int
    decreases s.len() - i,
{
    if 0 <= i < s.len() && !boundary(s, i) {
        invalid_end(s, i + 1)
    } else {
        i
    }
}

/// A function argument: an expression, an array `[...]` or a tuple `(..., ...)`.
pub enum PArg {
    Expression(PExpr),
    Array(Seq<PExpr>),
    Tuple(Seq<PExpr>),
}

/// An error found while parsing: its message and the range of characters it is about.
pub type PErr = (Seq<char>, int, int);

/// The result of a parse: the value, the position after it, and the errors found on the way.
pub type PRes<T> = Option<(T, int, Seq<PErr>)>;

/// The error for a run of characters that is no expression.
pub open spec fn invalid_error(s: Seq<char>, i: int, e: int) -> PErr {
    ("invalid value `"@ + s.subrange(i, e) + "`"@, i, e)
}

/// An expression at `i`: a binary comparison where one parses, an atom otherwise.
pub open spec fn p_expr(s: Seq<char>, i: int, nums: Seq<Option<Num>>) -> PRes<PExpr>
    decreases s.len() - i, 9nat,
{
    match p_binary(s, i, nums) {
        Some(r) => Some(r),
        None => p_atom(s, i, nums),
    }
}

/// A comparison `atom operator atom` at `i`.
pub open spec fn p_binary(s: Seq<char>, i: int, nums: Seq<Option<Num>>) -> PRes<PExpr>
    decreases s.len() - i, 8nat,
{
    match p_atom(s, i, nums) {
        Some((l, j, c1)) => match operator(s, j) {
            Some((op, k)) => if k <= i || k > s.len() {
                None
            } else {
                match p_atom(s, k, nums) {
                    Some((r, m, c2)) => Some((PExpr::Compare(op, Box::new(l), Box::new(r)), m, c1 + c2)),
                    None => None,
                }
            },
            None => None,
        },
        None => None,
    }
}

/// An atom at `i`: the first of a block, a literal, a call, a property and an invalid run.
pub open spec fn p_atom(s: Seq<char>, i: int, nums: Seq<Option<Num>>) -> PRes<PExpr>
    decreases s.len() - i, 7nat,
{
    match p_block(s, i, nums) {
        Some(r) => Some(r),
        None => match literal(s, i, nums) {
            Some((v, e)) => Some((v, e, Seq::empty())),
            None => match p_call(s, i, nums) {
                Some(r) => Some(r),
                None => match property(s, i) {
                    Some((v, e)) => Some((v, e, Seq::empty())),
                    None => {
                        let e = invalid_end(s, i);
                        if e > i {
                            Some((PExpr::Null, e, seq![invalid_error(s, i, e)]))
                        } else {
                            None
                        }
                    },
                },
            },
        },
    }
}

/// A parenthesised expression at `i`.
pub open spec fn p_block(s: Seq<char>, i: int, nums: Seq<Option<Num>>) -> PRes<PExpr>
    decreases s.len() - i, 6nat,
{
    if 0 <= i < s.len() && s[i] == '(' {
        match p_expr(s, i + 1, nums) {
            Some((v, j, c)) => if 0 <= j < s.len() && s[j] == ')' {
                Some((v, j + 1, c))
            } else {
                None
            },
            None => None,
        }
    } else {
        None
    }
}

/// Expressions separated by `,` with an optional trailing `,`, from `i`.
pub open spec fn p_list(s: Seq<char>, i: int, nums: Seq<Option<Num>>) -> PRes<Seq<PExpr>>
    decreases s.len() - i, 10nat,
{
    match p_expr(s, i, nums) {
        None => Some((Seq::empty(), i, Seq::empty())),
        Some((v, j, c)) => if j <= i || j > s.len() {
            None
        } else if j < s.len() && s[j] == ',' {
            match p_list(s, j + 1, nums) {
                Some((rest, k, c2)) => Some((seq![v] + rest, k, c + c2)),
                None => None,
            }
        } else {
            Some((seq![v], j, c))
        },
    }
}

/// A function argument at `i`, with white space around it: an array, a tuple of at least
/// two expressions, or an expression.
pub open spec fn p_arg(s: Seq<char>, i: int, nums: Seq<Option<Num>>) -> PRes<PArg>
    decreases s.len() - i, 11nat,
{
    let a = skip_ws(s, i);
    if a < i || a > s.len() {
        None
    } else {
        let array = if 0 <= a < s.len() && s[a] == '[' {
            match p_list(s, a + 1, nums) {
                Some((items, j, c)) => if 0 <= j < s.len() && s[j] == ']' {
                    Some((PArg::Array(items), j + 1, c))
                } else {
                    None
                },
                None => None,
            }
        } else {
            None
        };
        let tuple = if 0 <= a < s.len() && s[a] == '(' {
            match p_list(s, a + 1, nums) {
                Some((items, j, c)) => if items.len() >= 2 && 0 <= j < s.len() && s[j] == ')' {
                    Some((PArg::Tuple(items), j + 1, c))
                } else {
                    None
                },
                None => None,
            }
        } else {
            None
        };
        let chosen = match array {
            Some(r) => Some(r),
            None => match tuple {
                Some(r) => Some(r),
                None => match p_expr(s, a, nums) {
                    Some((v, j, c)) => Some((PArg::Expression(v), j, c)),
                    None => None,
                },
            },
        };
        match chosen {
            Some((v, j, c)) => Some((v, skip_ws(s, j), c)),
            None => None,
        }
    }
}

/// Function arguments separated by `,` with an optional trailing `,`, from `i`, each with
/// the range of the text it was read from.
pub open spec fn p_args(s: Seq<char>, i: int, nums: Seq<Option<Num>>) -> PRes<Seq<(PArg, int, int)>>
    decreases s.len() - i, 12nat,
{
    match p_arg(s, i, nums) {
        None => Some((Seq::empty(), i, Seq::empty())),
        Some((v, j, c)) => if j <= i || j > s.len() {
            None
        } else if j < s.len() && s[j] == ',' {
            match p_args(s, j + 1, nums) {
                Some((rest, k, c2)) => Some((seq![(v, i, j)] + rest, k, c + c2)),
                None => None,
            }
        } else {
            Some((seq![(v, i, j)], j, c))
        },
    }
}

/// The error for a missing argument at `position` of the function named by `s[a..e]`.
pub open spec fn missing_error(s: Seq<char>, a: int, e: int, position: nat) -> PErr {
    ("function "@ + s.subrange(a, e) + " missing argumnt "@ + decimal(position), a, e)
}

/// The error for an argument at `position` of the function named by `s[a..e]` that is not of
/// the kind `expected`; the argument was read from `s[start..end]`.
pub open spec fn type_error(
    s: Seq<char>,
    a: int,
    e: int,
    position: nat,
    expected: Seq<char>,
    start: int,
    end: int,
) -> PErr {
    (
        "expected `"@ + expected + "` argument at position `"@ + decimal(position)
            + "` of function `"@ + s.subrange(a, e) + "`, but got `"@ + s.subrange(start, end)
            + "`"@,
        start,
        end,
    )
}

/// The error for a call of the function named by `s[a..e]` with `all` arguments where it
/// takes `used`; the call was read from `s[call_start..call_end]`.
pub open spec fn count_error(
    s: Seq<char>,
    a: int,
    e: int,
    used: nat,
    all: nat,
    call_start: int,
    call_end: int,
) -> PErr {
    (
        "function "@ + s.subrange(a, e) + " expected "@ + decimal(used) + " arguments but got "@
            + decimal(all) + " instead"@,
        call_start,
        call_end,
    )
}

/// The error for a call of a function that does not exist.
pub open spec fn unknown_error(s: Seq<char>, a: int, e: int) -> PErr {
    ("Unknown function `"@ + s.subrange(a, e) + "`"@, a, e)
}

/// The value of a call of the function named by `s[a..e]` with `args`, and the error of an
/// invalid call: `any`, `all` take one array, `not` one expression, `get` one string, `in` an
/// expression and an array, `geom_type` and `zoom` none. The first problem found is reported:
/// a missing argument, then an argument of the wrong kind, then too many arguments. An invalid
/// call is `null`.
pub open spec fn call_value(
    s: Seq<char>,
    a: int,
    e: int,
    args: Seq<(PArg, int, int)>,
    call_start: int,
    call_end: int,
) -> (PExpr, Option<PErr>) {
    let name = s.subrange(a, e);
    let n = args.len();
    if name == "any"@ || name == "all"@ {
        if n == 0 {
            (PExpr::Null, Some(missing_error(s, a, e, 1)))
        } else {
            match args[0].0 {
                PArg::Array(items) => if n > 1 {
                    (PExpr::Null, Some(count_error(s, a, e, 1, n, call_start, call_end)))
                } else if name == "any"@ {
                    (PExpr::Any(items), None)
                } else {
                    (PExpr::All(items), None)
                },
                _ => (PExpr::Null, Some(type_error(s, a, e, 1, "[Array]"@, args[0].1, args[0].2))),
            }
        }
    } else if name == "not"@ {
        if n == 0 {
            (PExpr::Null, Some(missing_error(s, a, e, 1)))
        } else {
            match args[0].0 {
                PArg::Expression(x) => if n > 1 {
                    (PExpr::Null, Some(count_error(s, a, e, 1, n, call_start, call_end)))
                } else {
                    (PExpr::Not(Box::new(x)), None)
                },
                _ => (PExpr::Null, Some(type_error(s, a, e, 1, "Expression"@, args[0].1, args[0].2))),
            }
        }
    } else if name == "get"@ {
        if n == 0 {
            (PExpr::Null, Some(missing_error(s, a, e, 1)))
        } else {
            match args[0].0 {
                PArg::Expression(PExpr::Str(p)) => if n > 1 {
                    (PExpr::Null, Some(count_error(s, a, e, 1, n, call_start, call_end)))
                } else {
                    (PExpr::Get(p), None)
                },
                _ => (PExpr::Null, Some(type_error(s, a, e, 1, "String"@, args[0].1, args[0].2))),
            }
        }
    } else if name == "in"@ {
        if n == 0 {
            (PExpr::Null, Some(missing_error(s, a, e, 1)))
        } else {
            match args[0].0 {
                PArg::Expression(needle) => if n == 1 {
                    (PExpr::Null, Some(missing_error(s, a, e, 2)))
                } else {
                    match args[1].0 {
                        PArg::Array(items) => if n > 2 {
                            (PExpr::Null, Some(count_error(s, a, e, 2, n, call_start, call_end)))
                        } else {
                            (PExpr::In(Box::new(needle), items), None)
                        },
                        _ => (
                            PExpr::Null,
                            Some(type_error(s, a, e, 2, "[Array]"@, args[1].1, args[1].2)),
                        ),
                    }
                },
                _ => (PExpr::Null, Some(type_error(s, a, e, 1, "Expression"@, args[0].1, args[0].2))),
            }
        }
    } else if name == "geom_type"@ {
        if n > 0 {
            (PExpr::Null, Some(count_error(s, a, e, 0, n, call_start, call_end)))
        } else {
            (PExpr::GeomType, None)
        }
    } else if name == "zoom"@ {
        if n > 0 {
            (PExpr::Null, Some(count_error(s, a, e, 0, n, call_start, call_end)))
        } else {
            (PExpr::Zoom, None)
        }
    } else {
        (PExpr::Null, Some(unknown_error(s, a, e)))
    }
}

/// The words `true`, `false` and `null` are the boolean and null literals: `true` and `false`
/// read as those booleans and `null` as null, and no other literal is a boolean or null.
pub proof fn law_keyword_literals(s: Seq<char>, i: int, nums: Seq<Option<Num>>)
    ensures
        word_at(s, i, seq!['t', 'r', 'u', 'e']) ==> literal_core(s, i, nums) == Some((PExpr::Bool(true), i + 4)),
        word_at(s, i, seq!['f', 'a', 'l', 's', 'e']) ==> literal_core(s, i, nums) == Some((PExpr::Bool(false), i + 5)),
        word_at(s, i, seq!['n', 'u', 'l', 'l']) ==> literal_core(s, i, nums) == Some((PExpr::Null, i + 4)),
        literal_core(s, i, nums) matches Some((PExpr::Bool(b), j)) ==> if b {
            word_at(s, i, seq!['t', 'r', 'u', 'e']) && j == i + 4
        } else {
            word_at(s, i, seq!['f', 'a', 'l', 's', 'e']) && j == i + 5
        },
        literal_core(s, i, nums) matches Some((PExpr::Null, j)) ==> word_at(s, i, seq!['n', 'u', 'l', 'l']) && j == i + 4,
{
    let t = seq!['t', 'r', 'u', 'e'];
    let f = seq!['f', 'a', 'l', 's', 'e'];
    let n = seq!['n', 'u', 'l', 'l'];
    if word_at(s, i, f) {
        assert(s[i] == 'f');
        if word_at(s, i, t) {
            assert(s.subrange(i, i + 4)[0] == 't');
            assert(s.subrange(i, i + 5)[0] == 'f');
        }
    }
    if word_at(s, i, n) {
        assert(s.subrange(i, i + 4)[0] == 'n');
        if word_at(s, i, t) {
            assert(s.subrange(i, i + 4)[0] == 't');
        }
        if word_at(s, i, f) {
            assert(s.subrange(i, i + 5)[0] == 'f');
            assert(s[i] == 'f');
            assert(s[i] == 'n');
        }
    }
}

/// A string body with neither its quote nor a backslash in it is read as it stands, up to
/// its closing quote.
proof fn lemma_plain_string_body(s: Seq<char>, j: int, e: int, q: char)
    requires
        0 <= j <= e < s.len(),
        s[e] == q,
        forall|k: int| j <= k < e ==> s[k] != q && s[k] != '\\',
    ensures
        string_body(s, j, q) == Some((s.subrange(j, e), e + 1)),
    decreases e - j,
{
    if j < e {
        lemma_plain_string_body(s, j + 1, e, q);
        assert(seq![s[j]] + s.subrange(j + 1, e) =~= s.subrange(j, e));
    } else {
        assert(s.subrange(j, e) =~= Seq::<char>::empty());
    }
}

/// A string literal is the text between its quotes: where a double or single quote opens
/// at `i` and the text up to the next such quote holds neither that quote nor a backslash,
/// the literal is that text and ends after the closing quote.
pub proof fn law_string_literals(s: Seq<char>, i: int, e: int, nums: Seq<Option<Num>>)
    requires
        0 <= i < e < s.len(),
        s[i] == '"' || s[i] == '\'',
        s[e] == s[i],
        forall|k: int| i < k < e ==> s[k] != s[i] && s[k] != '\\',
    ensures
        literal_core(s, i, nums) == Some((PExpr::Str(s.subrange(i + 1, e)), e + 1)),
{
    lemma_plain_string_body(s, i + 1, e, s[i]);
    assert(!word_at(s, i, seq!['t', 'r', 'u', 'e'])) by {
        if word_at(s, i, seq!['t', 'r', 'u', 'e']) {
            assert(s.subrange(i, i + 4)[0] == s[i]);
        }
    }
    assert(!word_at(s, i, seq!['f', 'a', 'l', 's', 'e'])) by {
        if word_at(s, i, seq!['f', 'a', 'l', 's', 'e']) {
            assert(s.subrange(i, i + 5)[0] == s[i]);
        }
    }
    assert(!word_at(s, i, seq!['n', 'u', 'l', 'l'])) by {
        if word_at(s, i, seq!['n', 'u', 'l', 'l']) {
            assert(s.subrange(i, i + 4)[0] == s[i]);
        }
    }
    assert(digits_end(s, i) == i);
}

/// Each comparison operator reads as its own comparison, the two-character ones whole:
/// `==` as equality, `!=` as inequality, `>=` and `<=` as the non-strict orders and `>` and
/// `<` (not followed by `=`) as the strict ones.
pub proof fn law_operators_read_as_written(s: Seq<char>, i: int)
    ensures
        word_at(s, i, seq!['=', '=']) ==> op_at(s, i) == Some((Comparison::Eq, i + 2)),
        word_at(s, i, seq!['!', '=']) ==> op_at(s, i) == Some((Comparison::Ne, i + 2)),
        word_at(s, i, seq!['>', '=']) ==> op_at(s, i) == Some((Comparison::Gte, i + 2)),
        word_at(s, i, seq!['<', '=']) ==> op_at(s, i) == Some((Comparison::Lte, i + 2)),
        word_at(s, i, seq!['>']) && !word_at(s, i, seq!['>', '=']) ==> op_at(s, i) == Some((Comparison::Gt, i + 1)),
        word_at(s, i, seq!['<']) && !word_at(s, i, seq!['<', '=']) ==> op_at(s, i) == Some((Comparison::Lt, i + 1)),
{
    if word_at(s, i, seq!['>', '=']) || word_at(s, i, seq!['<', '=']) || word_at(s, i, seq!['>']) || word_at(s, i, seq!['<']) {
        assert(s.subrange(i, i + 1)[0] == s[i]);
        if word_at(s, i, seq!['>', '=']) || word_at(s, i, seq!['<', '=']) {
            assert(s.subrange(i, i + 2)[0] == s[i]);
        }
        if word_at(s, i, seq!['=', '=']) || word_at(s, i, seq!['!', '=']) {
            assert(s.subrange(i, i + 2)[0] == s[i]);
        }
    }
}

/// The view of an expression keeps what it is: null, a boolean, a number, a property read,
/// each comparison as that comparison of the views of its operands, `not` as the negation of
/// its operand's view, and zoom and geometry type as themselves.
pub proof fn law_view_keeps_expressions(e: Expr)
    ensures
        e == Expr::Value(ExprValue::Null) ==> pview(e) == PExpr::Null,
        e matches Expr::Value(ExprValue::Boolean(b)) ==> pview(e) == PExpr::Bool(b),
        e matches Expr::Value(ExprValue::Number(n)) ==> pview(e) == PExpr::Number(n),
        e matches Expr::Get(p) ==> pview(e) == PExpr::Get(p@),
        e matches Expr::Eq(a, b) ==> pview(e) == PExpr::Compare(Comparison::Eq, Box::new(pview(*a)), Box::new(pview(*b))),
        e matches Expr::Ne(a, b) ==> pview(e) == PExpr::Compare(Comparison::Ne, Box::new(pview(*a)), Box::new(pview(*b))),
        e matches Expr::Gt(a, b) ==> pview(e) == PExpr::Compare(Comparison::Gt, Box::new(pview(*a)), Box::new(pview(*b))),
        e matches Expr::Gte(a, b) ==> pview(e) == PExpr::Compare(Comparison::Gte, Box::new(pview(*a)), Box::new(pview(*b))),
        e matches Expr::Lt(a, b) ==> pview(e) == PExpr::Compare(Comparison::Lt, Box::new(pview(*a)), Box::new(pview(*b))),
        e matches Expr::Lte(a, b) ==> pview(e) == PExpr::Compare(Comparison::Lte, Box::new(pview(*a)), Box::new(pview(*b))),
        e matches Expr::Not(a) ==> pview(e) == PExpr::Not(Box::new(pview(*a))),
        e is Zoom ==> pview(e) == PExpr::Zoom,
        e is GeomType ==> pview(e) == PExpr::GeomType,
{
}

/// The functions of the text syntax read as their names say: `zoom()` and `geom_type()` as
/// themselves, `not(x)` as the negation of `x`, `get("p")` as the property `p`, `any([..])` and
/// `all([..])` as the disjunction and conjunction of the items, and `in(x, [..])` as the
/// membership of `x` among the items; none of them reports an error.
pub proof fn law_functions_read_as_named(
    s: Seq<char>,
    a: int,
    e: int,
    args: Seq<(PArg, int, int)>,
    call_start: int,
    call_end: int,
)
    ensures
        s.subrange(a, e) == "zoom"@ && args.len() == 0 ==> call_value(s, a, e, args, call_start, call_end)
            == (PExpr::Zoom, None::<PErr>),
        s.subrange(a, e) == "geom_type"@ && args.len() == 0 ==> call_value(s, a, e, args, call_start, call_end)
            == (PExpr::GeomType, None::<PErr>),
        s.subrange(a, e) == "not"@ && args.len() == 1 && args[0].0 is Expression ==> call_value(
            s,
            a,
            e,
            args,
            call_start,
            call_end,
        ) == (PExpr::Not(Box::new(args[0].0->Expression_0)), None::<PErr>),
        s.subrange(a, e) == "get"@ && args.len() == 1 && args[0].0 is Expression
            && args[0].0->Expression_0 is Str ==> call_value(s, a, e, args, call_start, call_end) == (PExpr::Get(args[0].0->Expression_0->Str_0), None::<PErr>),
        s.subrange(a, e) == "any"@ && args.len() == 1 && args[0].0 is Array ==> call_value(
            s,
            a,
            e,
            args,
            call_start,
            call_end,
        ) == (PExpr::Any(args[0].0->Array_0), None::<PErr>),
        s.subrange(a, e) == "all"@ && args.len() == 1 && args[0].0 is Array ==> call_value(
            s,
            a,
            e,
            args,
            call_start,
            call_end,
        ) == (PExpr::All(args[0].0->Array_0), None::<PErr>),
        s.subrange(a, e) == "in"@ && args.len() == 2 && args[0].0 is Expression && args[1].0 is Array
            ==> call_value(s, a, e, args, call_start, call_end) == (PExpr::In(
            Box::new(args[0].0->Expression_0),
            args[1].0->Array_0,
        ), None::<PErr>),
{
    reveal_strlit("zoom");
    reveal_strlit("geom_type");
    reveal_strlit("not");
    reveal_strlit("get");
    reveal_strlit("any");
    reveal_strlit("all");
    reveal_strlit("in");
    assert("not"@[0] != "any"@[0] && "not"@[0] != "all"@[0]);
    assert("get"@[0] != "any"@[0] && "get"@[0] != "all"@[0] && "get"@[0] != "not"@[0]);
    assert("all"@[1] != "any"@[1]);
    if s.subrange(a, e) == "all"@ {
        assert(s.subrange(a, e) != "any"@);
    }
    if s.subrange(a, e) == "not"@ {
        assert(s.subrange(a, e) != "any"@ && s.subrange(a, e) != "all"@);
    }
    if s.subrange(a, e) == "get"@ {
        assert(s.subrange(a, e) != "any"@ && s.subrange(a, e) != "all"@ && s.subrange(a, e) != "not"@);
    }
}

/// The errors of a call: the one of `call_value`, where there is one.
pub open spec fn call_errors(err: Option<PErr>) -> Seq<PErr> {
    match err {
        Some(x) => seq![x],
        None => Seq::empty(),
    }
}

/// A function call at `i`: an identifier, its arguments in parentheses, white space around.
pub open spec fn p_call(s: Seq<char>, i: int, nums: Seq<Option<Num>>) -> PRes<PExpr>
    decreases s.len() - i, 6nat,
{
    let a = skip_ws(s, i);
    match ident_end(s, a) {
        Some(e) => if i <= a && a < e && e < s.len() && s[e] == '(' {
            match p_args(s, e + 1, nums) {
                Some((args, j, c)) => if 0 <= j < s.len() && s[j] == ')' {
                    let (v, err) = call_value(s, a, e, args, i, skip_ws(s, j + 1));
                    Some((v, skip_ws(s, j + 1), c + call_errors(err)))
                } else {
                    None
                },
                None => None,
            }
        } else {
            None
        },
        None => None,
    }
}

/// The expression that a text is: it parses whole and no error was reported.
pub open spec fn parsed(s: Seq<char>, nums: Seq<Option<Num>>) -> Option<PExpr> {
    match p_expr(s, 0, nums) {
        Some((v, j, errs)) => if j == s.len() && errs.len() == 0 {
            Some(v)
        } else {
            None
        },
        None => None,
    }
}

/// The errors that parsing a text reports where it is no expression: the errors found while
/// reading the expression, and where the text goes on after it, an error for the first
/// character left; where no expression can be read at all, an error for the first character
/// or for the end of input.
pub open spec fn parse_errors(s: Seq<char>, nums: Seq<Option<Num>>) -> Seq<PErr> {
    match p_expr(s, 0, nums) {
        Some((v, j, errs)) => if j < s.len() {
            errs.push(("unexpected input `"@ + s.subrange(j, j + 1) + "`"@, j, j + 1))
        } else {
            errs
        },
        None => if s.len() == 0 {
            seq![("unexpected end of input"@, 0, 0)]
        } else {
            seq![("unexpected input `"@ + s.subrange(0, 1) + "`"@, 0, 1)]
        },
    }
}

} // verus!

verus! {

/// An error found while parsing: its message and the range of characters it is about.
#[derive(Debug, PartialEq)]
pub struct ExprParseError {
    pub message: String,
    pub start: usize,
    pub end: usize,
}

impl ExprParseError {
    /// The error as text: the message, then ` at start..end`.
    pub fn describe(&self) -> (r: String)
        ensures
            r@ == self.message@ + " at "@ + crate::tile_url::decimal(self.start as nat) + ".."@
                + crate::tile_url::decimal(self.end as nat),
    {
        proof {
            reveal_strlit(" at ");
            reveal_strlit("..");
        }
        let mut r = self.message.clone();
        r.append(" at ");
        crate::tile_url::push_decimal(&mut r, self.start as u64);
        r.append("..");
        crate::tile_url::push_decimal(&mut r, self.end as u64);
        r
    }
}

/// The characters of a text.
pub fn chars_of(text: &str) -> (r: Vec<char>)
    ensures
        r@ == text@,
{
    let n = text.unicode_len();
    let mut out: Vec<char> = Vec::new();
    let mut i: usize = 0;
    while i < n
        invariant
            n == text@.len(),
            i <= n,
            out@ == text@.subrange(0, i as int),
        decreases n - i,
    {
        out.push(text.get_char(i));
        i = i + 1;
        assert(out@ =~= text@.subrange(0, i as int));
    }
    assert(text@.subrange(0, n as int) =~= text@);
    out
}

fn is_ws_x(c: char) -> (r: bool)
    ensures
        r == is_ws(c),
{
    c == ' ' || ('\u{9}' <= c && c <= '\u{d}') || c == '\u{85}' || c == '\u{a0}' || c == '\u{1680}'
        || ('\u{2000}' <= c && c <= '\u{200a}') || c == '\u{2028}' || c == '\u{2029}' || c
        == '\u{202f}' || c == '\u{205f}' || c == '\u{3000}'
}

fn is_ident_start_x(c: char) -> (r: bool)
    ensures
        r == is_ident_start(c),
{
    ('a' <= c && c <= 'z') || ('A' <= c && c <= 'Z') || c == '_'
}

fn is_ident_cont_x(c: char) -> (r: bool)
    ensures
        r == is_ident_cont(c),
{
    is_ident_start_x(c) || ('0' <= c && c <= '9')
}

fn is_hex_digit_x(c: char) -> (r: bool)
    ensures
        r == is_hex_digit(c),
{
    ('0' <= c && c <= '9') || ('a' <= c && c <= 'f') || ('A' <= c && c <= 'F')
}

fn skip_ws_x(s: &Vec<char>, i: usize) -> (r: usize)
    requires
        i <= s@.len(),
    ensures
        r == skip_ws(s@, i as int),
        i <= r <= s.len(),
{
    let mut j = i;
    while j < s.len() && is_ws_x(s[j])
        invariant
            i <= j <= s@.len(),
            skip_ws(s@, j as int) == skip_ws(s@, i as int),
        decreases s@.len() - j,
    {
        j = j + 1;
    }
    j
}

fn ident_cont_end_x(s: &Vec<char>, i: usize) -> (r: usize)
    requires
        i <= s@.len(),
    ensures
        r == ident_cont_end(s@, i as int),
        i <= r <= s.len(),
{
    let mut j = i;
    while j < s.len() && is_ident_cont_x(s[j])
        invariant
            i <= j <= s@.len(),
            ident_cont_end(s@, j as int) == ident_cont_end(s@, i as int),
        decreases s@.len() - j,
    {
        j = j + 1;
    }
    j
}

fn ident_end_x(s: &Vec<char>, i: usize) -> (r: Option<usize>)
    requires
        i <= s@.len(),
    ensures
        match ident_end(s@, i as int) {
            Some(e) => r == Some(e as usize) && i < e <= s.len(),
            None => r is None,
        },
{
    if i < s.len() && is_ident_start_x(s[i]) {
        Some(ident_cont_end_x(s, i + 1))
    } else {
        None
    }
}

fn digits_end_x(s: &Vec<char>, i: usize) -> (r: usize)
    requires
        i <= s@.len(),
    ensures
        r == digits_end(s@, i as int),
        i <= r <= s.len(),
{
    let mut j = i;
    while j < s.len() && '0' <= s[j] && s[j] <= '9'
        invariant
            i <= j <= s@.len(),
            digits_end(s@, j as int) == digits_end(s@, i as int),
        decreases s@.len() - j,
    {
        j = j + 1;
    }
    j
}

fn word_at_x(s: &Vec<char>, i: usize, w: &Vec<char>) -> (r: bool)
    requires
        i <= s@.len(),
    ensures
        r == word_at(s@, i as int, w@),
        r ==> i + w@.len() <= s.len(),
{
    if w.len() > s.len() - i {
        return false;
    }
    let mut k: usize = 0;
    while k < w.len()
        invariant
            i + w@.len() <= s.len(),
            k <= w@.len(),
            forall|j: int| 0 <= j < k ==> s@[i + j] == w@[j],
        decreases w@.len() - k,
    {
        if s[i + k] != w[k] {
            assert(s@.subrange(i as int, i + w@.len())[k as int] != w@[k as int]);
            return false;
        }
        k = k + 1;
    }
    assert(s@.subrange(i as int, i + w@.len()) =~= w@);
    true
}

fn op_at_x(s: &Vec<char>, i: usize) -> (r: Option<(Comparison, usize)>)
    requires
        i <= s@.len(),
    ensures
        match op_at(s@, i as int) {
            Some((op, j)) => r == Some((op, j as usize)) && i < j <= s.len(),
            None => r is None,
        },
{
    let eq = vec!['=', '='];
    let ne = vec!['!', '='];
    let gt = vec!['>'];
    let ge = vec!['>', '='];
    let lt = vec!['<'];
    let le = vec!['<', '='];
    assert(eq@ == seq!['=', '=']);
    assert(ne@ == seq!['!', '=']);
    assert(gt@ == seq!['>']);
    assert(ge@ == seq!['>', '=']);
    assert(lt@ == seq!['<']);
    assert(le@ == seq!['<', '=']);
    if word_at_x(s, i, &eq) {
        Some((Comparison::Eq, i + 2))
    } else if word_at_x(s, i, &ne) {
        Some((Comparison::Ne, i + 2))
    } else if word_at_x(s, i, &ge) {
        Some((Comparison::Gte, i + 2))
    } else if word_at_x(s, i, &gt) {
        Some((Comparison::Gt, i + 1))
    } else if word_at_x(s, i, &le) {
        Some((Comparison::Lte, i + 2))
    } else if word_at_x(s, i, &lt) {
        Some((Comparison::Lt, i + 1))
    } else {
        None
    }
}

fn operator_x(s: &Vec<char>, i: usize) -> (r: Option<(Comparison, usize)>)
    requires
        i <= s@.len(),
    ensures
        match operator(s@, i as int) {
            Some((op, j)) => r == Some((op, j as usize)) && i < j <= s.len(),
            None => r is None,
        },
{
    let a = skip_ws_x(s, i);
    match op_at_x(s, a) {
        Some((op, j)) => Some((op, skip_ws_x(s, j))),
        None => None,
    }
}

fn boundary_x(s: &Vec<char>, i: usize) -> (r: bool)
    requires
        i <= s@.len(),
    ensures
        r == boundary(s@, i as int),
{
    if operator_x(s, i).is_some() {
        return true;
    }
    if i == s.len() {
        return true;
    }
    let c = s[i];
    c == '(' || c == ')' || c == '[' || c == ']' || c == ','
}

fn invalid_end_x(s: &Vec<char>, i: usize) -> (r: usize)
    requires
        i <= s@.len(),
    ensures
        r == invalid_end(s@, i as int),
        i <= r <= s.len(),
{
    let mut j = i;
    while j < s.len() && !boundary_x(s, j)
        invariant
            i <= j <= s@.len(),
            invalid_end(s@, j as int) == invalid_end(s@, i as int),
        decreases s@.len() - j,
    {
        j = j + 1;
    }
    j
}

fn hex_run_end_x(s: &Vec<char>, i: usize, max: usize) -> (r: usize)
    requires
        i <= s@.len(),
    ensures
        r == hex_run_end(s@, i as int, max as nat),
        i <= r <= s.len(),
        r - i <= max,
{
    let mut j = i;
    let mut left = max;
    while left > 0 && j < s.len() && is_hex_digit_x(s[j])
        invariant
            i <= j <= s@.len(),
            j - i + left == max,
            hex_run_end(s@, j as int, left as nat) == hex_run_end(s@, i as int, max as nat),
        decreases left,
    {
        j = j + 1;
        left = left - 1;
    }
    j
}

fn hex_val_x(c: char) -> (r: u8)
    requires
        is_hex_digit(c),
    ensures
        r as nat == hex_val(c),
        r < 16,
{
    if '0' <= c && c <= '9' {
        ((c as u32) - ('0' as u32)) as u8
    } else if 'a' <= c && c <= 'f' {
        ((c as u32) - ('a' as u32) + 10) as u8
    } else {
        ((c as u32) - ('A' as u32) + 10) as u8
    }
}

fn hex_byte_x(s: &Vec<char>, i: usize) -> (r: u8)
    requires
        i + 1 < s.len(),
        is_hex_digit(s@[i as int]),
        is_hex_digit(s@[i + 1]),
    ensures
        r == hex_byte(s@, i as int),
{
    let hi = hex_val_x(s[i]);
    let lo = hex_val_x(s[i + 1]);
    hi * 16 + lo
}

/// The position after the number literal at `i`, where one starts there.
pub fn number_end_x(s: &Vec<char>, i: usize) -> (r: Option<usize>)
    requires
        i <= s@.len(),
    ensures
        match number_end(s@, i as int) {
            Some(e) => r == Some(e as usize) && i < e <= s.len(),
            None => r is None,
        },
{
    let d1 = digits_end_x(s, i);
    if d1 == i {
        return None;
    }
    let d2 = if d1 < s.len() && s[d1] == '.' {
        digits_end_x(s, d1 + 1)
    } else {
        d1
    };
    let d3 = if d2 < s.len() && (s[d2] == 'e' || s[d2] == 'E') {
        let p = if d2 + 1 < s.len() && (s[d2 + 1] == '-' || s[d2 + 1] == '+') {
            d2 + 2
        } else {
            d2 + 1
        };
        let e = digits_end_x(s, p);
        if e > p {
            e
        } else {
            d2
        }
    } else {
        d2
    };
    Some(d3)
}

} // verus!

verus! {

/// The characters from `i` to `hex_run_end` are hex digits.
proof fn lemma_hex_run(s: Seq<char>, i: int, max: nat)
    requires
        0 <= i,
    ensures
        i <= hex_run_end(s, i, max) <= i + max,
        hex_run_end(s, i, max) <= s.len() || hex_run_end(s, i, max) == i,
        forall|k: int| i <= k < hex_run_end(s, i, max) ==> is_hex_digit(#[trigger] s[k]),
    decreases max,
{
    if max > 0 && 0 <= i < s.len() && is_hex_digit(s[i]) {
        lemma_hex_run(s, i + 1, (max - 1) as nat);
    }
}

/// The one-character string of a quote.
fn quote_str(q: char) -> (r: &'static str)
    requires
        q == '"' || q == '\'',
    ensures
        r@ == seq![q],
{
    proof {
        reveal_strlit("\"");
        reveal_strlit("'");
    }
    if q == '"' {
        "\""
    } else {
        "'"
    }
}

fn string_body_x(text: &str, s: &Vec<char>, i: usize, q: char) -> (r: Option<(String, usize)>)
    requires
        text@ == s@,
        i <= s.len(),
        q == '"' || q == '\'',
    ensures
        match string_body(s@, i as int, q) {
            Some((body, e)) => r matches Some((b, k)) && b@ == body && k as int == e && i < e
                <= s.len(),
            None => r is None,
        },
{
    let mut out = String::from_str("");
    proof {
        reveal_strlit("");
    }
    let mut seg = i;
    let mut j = i;
    while j < s.len()
        invariant
            text@ == s@,
            q == '"' || q == '\'',
            i <= seg <= j <= s.len(),
            string_body(s@, i as int, q) == match string_body(s@, j as int, q) {
                Some((rest, e)) => Some((out@ + s@.subrange(seg as int, j as int) + rest, e)),
                None => None,
            },
        decreases s@.len() - j,
    {
        if s[j] == q {
            let piece = text.substring_char(seg, j);
            out.append(piece);
            proof {
                assert(string_body(s@, j as int, q) == Some((Seq::<char>::empty(), j + 1)));
                assert(out@ =~= out@ + Seq::<char>::empty());
            }
            return Some((out, j + 1));
        } else if s[j] == '\\' {
            if j + 1 < s.len() && s[j + 1] == q {
                let ghost before = out@;
                let piece = text.substring_char(seg, j);
                out.append(piece);
                out.append(quote_str(q));
                proof {
                    match string_body(s@, j + 2, q) {
                        Some((rest, e)) => {
                            assert(before + s@.subrange(seg as int, j as int) + (seq![q] + rest)
                                =~= out@ + s@.subrange(j + 2, j + 2) + rest);
                        },
                        None => {},
                    }
                }
                seg = j + 2;
                j = j + 2;
            } else {
                return None;
            }
        } else {
            proof {
                match string_body(s@, j + 1, q) {
                    Some((rest, e)) => {
                        assert(out@ + s@.subrange(seg as int, j as int) + (seq![s@[j as int]] + rest)
                            =~= out@ + s@.subrange(seg as int, j + 1) + rest);
                    },
                    None => {},
                }
            }
            j = j + 1;
        }
    }
    None
}

fn literal_core_x(text: &str, s: &Vec<char>, i: usize, nums: &Vec<Option<Num>>) -> (r: Option<
    (ExprValue, usize),
>)
    requires
        text@ == s@,
        i <= s.len(),
        nums@.len() == s@.len(),
    ensures
        match literal_core(s@, i as int, nums@) {
            Some((v, e)) => r matches Some((x, k)) && pview(Expr::Value(x)) == v && k as int == e
                && i < e <= s.len(),
            None => r is None,
        },
{
    let w_true = vec!['t', 'r', 'u', 'e'];
    let w_false = vec!['f', 'a', 'l', 's', 'e'];
    let w_null = vec!['n', 'u', 'l', 'l'];
    assert(w_true@ == seq!['t', 'r', 'u', 'e']);
    assert(w_false@ == seq!['f', 'a', 'l', 's', 'e']);
    assert(w_null@ == seq!['n', 'u', 'l', 'l']);
    if word_at_x(s, i, &w_true) {
        return Some((ExprValue::Boolean(true), i + 4));
    }
    if word_at_x(s, i, &w_false) {
        return Some((ExprValue::Boolean(false), i + 5));
    }
    if word_at_x(s, i, &w_null) {
        return Some((ExprValue::Null, i + 4));
    }
    if i < s.len() && s[i] == '#' {
        let e = hex_run_end_x(s, i + 1, 8);
        proof {
            lemma_hex_run(s@, i + 1, 8);
        }
        let n = e - (i + 1);
        if n == 6 || n == 8 {
            let r = hex_byte_x(s, i + 1);
            let g = hex_byte_x(s, i + 3);
            let b = hex_byte_x(s, i + 5);
            let a = if n == 8 {
                hex_byte_x(s, i + 7)
            } else {
                255
            };
            return Some((ExprValue::Color(Color { r, g, b, a }), e));
        }
        return None;
    }
    match number_end_x(s, i) {
        Some(e) => {
            return match nums[i] {
                Some(n) => Some((ExprValue::Number(n), e)),
                None => None,
            };
        },
        None => {},
    }
    if i < s.len() && (s[i] == '"' || s[i] == '\'') {
        return match string_body_x(text, s, i + 1, s[i]) {
            Some((body, e)) => Some((ExprValue::String(body), e)),
            None => None,
        };
    }
    None
}

fn literal_x(text: &str, s: &Vec<char>, i: usize, nums: &Vec<Option<Num>>) -> (r: Option<
    (Expr, usize),
>)
    requires
        text@ == s@,
        i <= s.len(),
        nums@.len() == s@.len(),
    ensures
        match literal(s@, i as int, nums@) {
            Some((v, e)) => r matches Some((x, k)) && pview(x) == v && k as int == e && i < e
                <= s.len(),
            None => r is None,
        },
{
    let a = skip_ws_x(s, i);
    match literal_core_x(text, s, a, nums) {
        Some((v, e)) => {
            let b = skip_ws_x(s, e);
            if boundary_x(s, b) {
                Some((Expr::Value(v), b))
            } else {
                None
            }
        },
        None => None,
    }
}

fn property_x(text: &str, s: &Vec<char>, i: usize) -> (r: Option<(Expr, usize)>)
    requires
        text@ == s@,
        i <= s.len(),
    ensures
        match property(s@, i as int) {
            Some((v, e)) => r matches Some((x, k)) && pview(x) == v && k as int == e && i < e
                <= s.len(),
            None => r is None,
        },
{
    let a = skip_ws_x(s, i);
    match ident_end_x(s, a) {
        Some(e) => {
            let name = String::from_str(text.substring_char(a, e));
            Some((Expr::Get(name), skip_ws_x(s, e)))
        },
        None => None,
    }
}

} // verus!

verus! {

/// The errors as messages and ranges.
pub open spec fn errs_view(errs: Seq<ExprParseError>) -> Seq<PErr> {
    errs.map_values(|e: ExprParseError| (e.message@, e.start as int, e.end as int))
}

/// `new` is `old` with the errors `added` after it.
pub open spec fn errs_ok(old: Seq<ExprParseError>, new: Seq<ExprParseError>, added: Seq<PErr>) -> bool {
    &&& new.len() >= old.len()
    &&& new.subrange(0, old.len() as int) == old
    &&& errs_view(new) == errs_view(old) + added
}

proof fn lemma_errs_chain(
    old: Seq<ExprParseError>,
    mid: Seq<ExprParseError>,
    new: Seq<ExprParseError>,
    c1: Seq<PErr>,
    c2: Seq<PErr>,
)
    requires
        errs_ok(old, mid, c1),
        errs_ok(mid, new, c2),
    ensures
        errs_ok(old, new, c1 + c2),
{
    assert(errs_view(old) + c1 + c2 =~= errs_view(old) + (c1 + c2));
    assert(new.subrange(0, old.len() as int) =~= new.subrange(0, mid.len() as int).subrange(
        0,
        old.len() as int,
    ));
}

/// No error added leaves the errors as they were.
proof fn lemma_errs_same(errs: Seq<ExprParseError>)
    ensures
        errs_ok(errs, errs, Seq::empty()),
{
    assert(errs_view(errs) + Seq::<PErr>::empty() =~= errs_view(errs));
    assert(errs.subrange(0, errs.len() as int) =~= errs);
}

/// Pushing an error adds its view.
proof fn lemma_errs_push(errs: Seq<ExprParseError>, e: ExprParseError)
    ensures
        errs_ok(errs, errs.push(e), seq![(e.message@, e.start as int, e.end as int)]),
{
    assert(errs_view(errs.push(e)) =~= errs_view(errs) + seq![(e.message@, e.start as int, e.end as int)]);
    assert(errs.push(e).subrange(0, errs.len() as int) =~= errs);
}

/// Every argument range lies within a text of `len` characters.
pub open spec fn spans_ok(x: Seq<(FuncArgument, usize, usize)>, len: int) -> bool {
    forall|n: int| 0 <= n < x.len() ==> #[trigger] x[n].1 <= x[n].2 <= len
}

/// A function argument as parsed.
pub enum FuncArgument {
    Expression(Expr),
    Array(Vec<Expr>),
    Tuple(Vec<Expr>),
}

/// The shape of a parsed function argument.
pub open spec fn argview(a: FuncArgument) -> PArg {
    match a {
        FuncArgument::Expression(e) => PArg::Expression(pview(e)),
        FuncArgument::Array(v) => PArg::Array(pviews(v@)),
        FuncArgument::Tuple(v) => PArg::Tuple(pviews(v@)),
    }
}

/// The shapes of parsed function arguments, with their text ranges.
pub open spec fn argviews(v: Seq<(FuncArgument, usize, usize)>) -> Seq<(PArg, int, int)> {
    Seq::new(v.len(), |n: int| (argview(v[n].0), v[n].1 as int, v[n].2 as int))
}

/// The shapes of the list expressions.
proof fn lemma_pview_lists(v: Vec<Expr>, needle: Expr)
    ensures
        pview(Expr::All(v)) == PExpr::All(pviews(v@)),
        pview(Expr::Any(v)) == PExpr::Any(pviews(v@)),
        pview(Expr::In { needle: Box::new(needle), haystack: v }) == PExpr::In(
            Box::new(pview(needle)),
            pviews(v@),
        ),
{
    assert(pview(Expr::All(v))->All_0 =~= pviews(v@));
    assert(pview(Expr::Any(v))->Any_0 =~= pviews(v@));
    assert(pview(Expr::In { needle: Box::new(needle), haystack: v })->In_1 =~= pviews(v@));
}

fn make_comparison(op: Comparison, l: Expr, r: Expr) -> (e: Expr)
    ensures
        pview(e) == PExpr::Compare(op, Box::new(pview(l)), Box::new(pview(r))),
{
    match op {
        Comparison::Eq => Expr::Eq(Box::new(l), Box::new(r)),
        Comparison::Ne => Expr::Ne(Box::new(l), Box::new(r)),
        Comparison::Gt => Expr::Gt(Box::new(l), Box::new(r)),
        Comparison::Gte => Expr::Gte(Box::new(l), Box::new(r)),
        Comparison::Lt => Expr::Lt(Box::new(l), Box::new(r)),
        Comparison::Lte => Expr::Lte(Box::new(l), Box::new(r)),
    }
}

fn push_error(errs: &mut Vec<ExprParseError>, message: String, start: usize, end: usize)
    ensures
        final(errs)@ == old(errs)@.push(ExprParseError { message, start, end }),
{
    errs.push(ExprParseError { message, start, end });
}

fn x_expr(
    text: &str,
    s: &Vec<char>,
    i: usize,
    nums: &Vec<Option<Num>>,
    errs: &mut Vec<ExprParseError>,
) -> (r: Option<(Expr, usize)>)
    requires
        text@ == s@,
        i <= s.len(),
        nums@.len() == s@.len(),
    ensures
        match p_expr(s@, i as int, nums@) {
            Some((v, j, c)) => r matches Some((x, k)) && pview(x) == v && k as int == j && k
                <= s.len() && errs_ok(old(errs)@, final(errs)@, c),
            None => r is None && final(errs)@ == old(errs)@,
        },
    decreases s@.len() - i, 9nat,
{
    match x_binary(text, s, i, nums, errs) {
        Some(r) => Some(r),
        None => x_atom(text, s, i, nums, errs),
    }
}

fn x_binary(
    text: &str,
    s: &Vec<char>,
    i: usize,
    nums: &Vec<Option<Num>>,
    errs: &mut Vec<ExprParseError>,
) -> (r: Option<(Expr, usize)>)
    requires
        text@ == s@,
        i <= s.len(),
        nums@.len() == s@.len(),
    ensures
        match p_binary(s@, i as int, nums@) {
            Some((v, j, c)) => r matches Some((x, k)) && pview(x) == v && k as int == j && k
                <= s.len() && errs_ok(old(errs)@, final(errs)@, c),
            None => r is None && final(errs)@ == old(errs)@,
        },
    decreases s@.len() - i, 8nat,
{
    let saved = errs.len();
    let ghost e0 = errs@;
    match x_atom(text, s, i, nums, errs) {
        None => None,
        Some((l, j)) => {
            let ghost e1 = errs@;
            match operator_x(s, j) {
                None => {
                    errs.truncate(saved);
                    None
                },
                Some((op, k)) => {
                    if k <= i || k > s.len() {
                        errs.truncate(saved);
                        return None;
                    }
                    match x_atom(text, s, k, nums, errs) {
                        None => {
                            errs.truncate(saved);
                            None
                        },
                        Some((r, m)) => {
                            proof {
                                let c1 = p_atom(s@, i as int, nums@)->Some_0.2;
                                let c2 = p_atom(s@, k as int, nums@)->Some_0.2;
                                lemma_errs_chain(e0, e1, errs@, c1, c2);
                            }
                            Some((make_comparison(op, l, r), m))
                        },
                    }
                },
            }
        },
    }
}

fn x_atom(
    text: &str,
    s: &Vec<char>,
    i: usize,
    nums: &Vec<Option<Num>>,
    errs: &mut Vec<ExprParseError>,
) -> (r: Option<(Expr, usize)>)
    requires
        text@ == s@,
        i <= s.len(),
        nums@.len() == s@.len(),
    ensures
        match p_atom(s@, i as int, nums@) {
            Some((v, j, c)) => r matches Some((x, k)) && pview(x) == v && k as int == j && k
                <= s.len() && errs_ok(old(errs)@, final(errs)@, c),
            None => r is None && final(errs)@ == old(errs)@,
        },
    decreases s@.len() - i, 7nat,
{
    match x_block(text, s, i, nums, errs) {
        Some(r) => return Some(r),
        None => {},
    }
    match literal_x(text, s, i, nums) {
        Some(r) => {
            proof {
                lemma_errs_same(errs@);
            }
            return Some(r);
        },
        None => {},
    }
    match x_call(text, s, i, nums, errs) {
        Some(r) => return Some(r),
        None => {},
    }
    match property_x(text, s, i) {
        Some(r) => {
            proof {
                lemma_errs_same(errs@);
            }
            return Some(r);
        },
        None => {},
    }
    let e = invalid_end_x(s, i);
    if e > i {
        let mut message = String::from_str("invalid value `");
        message.append(text.substring_char(i, e));
        message.append("`");
        let ghost e0 = errs@;
        proof {
            lemma_errs_push(e0, ExprParseError { message, start: i, end: e });
        }
        push_error(errs, message, i, e);
        Some((Expr::Value(ExprValue::Null), e))
    } else {
        None
    }
}

fn x_block(
    text: &str,
    s: &Vec<char>,
    i: usize,
    nums: &Vec<Option<Num>>,
    errs: &mut Vec<ExprParseError>,
) -> (r: Option<(Expr, usize)>)
    requires
        text@ == s@,
        i <= s.len(),
        nums@.len() == s@.len(),
    ensures
        match p_block(s@, i as int, nums@) {
            Some((v, j, c)) => r matches Some((x, k)) && pview(x) == v && k as int == j && k
                <= s.len() && errs_ok(old(errs)@, final(errs)@, c),
            None => r is None && final(errs)@ == old(errs)@,
        },
    decreases s@.len() - i, 6nat,
{
    if i < s.len() && s[i] == '(' {
        let saved = errs.len();
        match x_expr(text, s, i + 1, nums, errs) {
            Some((v, j)) => {
                if j < s.len() && s[j] == ')' {
                    Some((v, j + 1))
                } else {
                    errs.truncate(saved);
                    None
                }
            },
            None => None,
        }
    } else {
        None
    }
}

fn x_list(
    text: &str,
    s: &Vec<char>,
    i: usize,
    nums: &Vec<Option<Num>>,
    errs: &mut Vec<ExprParseError>,
) -> (r: Option<(Vec<Expr>, usize)>)
    requires
        text@ == s@,
        i <= s.len(),
        nums@.len() == s@.len(),
    ensures
        match p_list(s@, i as int, nums@) {
            Some((vs, j, c)) => r matches Some((x, k)) && pviews(x@) == vs && k as int == j && k
                <= s.len() && errs_ok(old(errs)@, final(errs)@, c),
            None => r is None && final(errs)@ == old(errs)@,
        },
    decreases s@.len() - i, 10nat,
{
    let saved = errs.len();
    let ghost e0 = errs@;
    match x_expr(text, s, i, nums, errs) {
        None => {
            let out: Vec<Expr> = Vec::new();
            proof {
                assert(pviews(out@) =~= Seq::<PExpr>::empty());
                lemma_errs_same(errs@);
            }
            Some((out, i))
        },
        Some((v, j)) => {
            if j <= i || j > s.len() {
                errs.truncate(saved);
                return None;
            }
            if j < s.len() && s[j] == ',' {
                let ghost e1 = errs@;
                match x_list(text, s, j + 1, nums, errs) {
                    Some((rest, k)) => {
                        let ghost rest_view = rest@;
                        let mut rest = rest;
                        rest.insert(0, v);
                        proof {
                            assert(pviews(rest@) =~= seq![pview(v)] + pviews(rest_view));
                            let c1 = p_expr(s@, i as int, nums@)->Some_0.2;
                            let c2 = p_list(s@, j + 1, nums@)->Some_0.2;
                            lemma_errs_chain(e0, e1, errs@, c1, c2);
                        }
                        Some((rest, k))
                    },
                    None => {
                        errs.truncate(saved);
                        None
                    },
                }
            } else {
                let out = vec![v];
                proof {
                    assert(pviews(out@) =~= seq![pview(v)]);
                }
                Some((out, j))
            }
        },
    }
}

#[verifier::rlimit(40)]
fn x_arg(
    text: &str,
    s: &Vec<char>,
    i: usize,
    nums: &Vec<Option<Num>>,
    errs: &mut Vec<ExprParseError>,
) -> (r: Option<(FuncArgument, usize)>)
    requires
        text@ == s@,
        i <= s.len(),
        nums@.len() == s@.len(),
    ensures
        match p_arg(s@, i as int, nums@) {
            Some((v, j, c)) => r matches Some((x, k)) && argview(x) == v && k as int == j && k
                <= s.len() && errs_ok(old(errs)@, final(errs)@, c),
            None => r is None && final(errs)@ == old(errs)@,
        },
    decreases s@.len() - i, 11nat,
{
    let a = skip_ws_x(s, i);
    let saved = errs.len();
    if a < s.len() && s[a] == '[' {
        match x_list(text, s, a + 1, nums, errs) {
            Some((items, j)) => {
                if j < s.len() && s[j] == ']' {
                    return Some((FuncArgument::Array(items), skip_ws_x(s, j + 1)));
                }
                errs.truncate(saved);
            },
            None => {},
        }
    }
    if a < s.len() && s[a] == '(' {
        match x_list(text, s, a + 1, nums, errs) {
            Some((items, j)) => {
                if items.len() >= 2 && j < s.len() && s[j] == ')' {
                    return Some((FuncArgument::Tuple(items), skip_ws_x(s, j + 1)));
                }
                errs.truncate(saved);
            },
            None => {},
        }
    }
    match x_expr(text, s, a, nums, errs) {
        Some((v, j)) => Some((FuncArgument::Expression(v), skip_ws_x(s, j))),
        None => None,
    }
}

fn x_args(
    text: &str,
    s: &Vec<char>,
    i: usize,
    nums: &Vec<Option<Num>>,
    errs: &mut Vec<ExprParseError>,
) -> (r: Option<(Vec<(FuncArgument, usize, usize)>, usize)>)
    requires
        text@ == s@,
        i <= s.len(),
        nums@.len() == s@.len(),
    ensures
        match p_args(s@, i as int, nums@) {
            Some((vs, j, c)) => r matches Some((x, k)) && argviews(x@) == vs && k as int == j && i
                <= k <= s.len() && errs_ok(old(errs)@, final(errs)@, c) && spans_ok(x@, s@.len() as int),
            None => r is None && final(errs)@ == old(errs)@,
        },
    decreases s@.len() - i, 12nat,
{
    let saved = errs.len();
    let ghost e0 = errs@;
    match x_arg(text, s, i, nums, errs) {
        None => {
            let out: Vec<(FuncArgument, usize, usize)> = Vec::new();
            proof {
                assert(argviews(out@) =~= Seq::<(PArg, int, int)>::empty());
                assert(spans_ok(out@, s@.len() as int));
                lemma_errs_same(errs@);
            }
            Some((out, i))
        },
        Some((v, j)) => {
            if j <= i || j > s.len() {
                errs.truncate(saved);
                return None;
            }
            if j < s.len() && s[j] == ',' {
                let ghost e1 = errs@;
                match x_args(text, s, j + 1, nums, errs) {
                    Some((rest, k)) => {
                        let ghost rest_view = rest@;
                        let ghost vv = argview(v);
                        let mut rest = rest;
                        rest.insert(0, (v, i, j));
                        proof {
                            assert(argviews(rest@) =~= seq![(vv, i as int, j as int)] + argviews(
                                rest_view,
                            ));
                            let c1 = p_arg(s@, i as int, nums@)->Some_0.2;
                            let c2 = p_args(s@, j + 1, nums@)->Some_0.2;
                            lemma_errs_chain(e0, e1, errs@, c1, c2);
                            assert forall|n: int| 0 <= n < rest@.len() implies #[trigger] rest@[n].1
                                <= rest@[n].2 <= s@.len() by {
                                if n > 0 {
                                    assert(rest@[n] == rest_view[n - 1]);
                                    assert(rest_view[n - 1].1 <= rest_view[n - 1].2 <= s@.len());
                                } else {
                                    assert(rest@[0] == (v, i, j));
                                }
                            }
                        }
                        Some((rest, k))
                    },
                    None => {
                        errs.truncate(saved);
                        None
                    },
                }
            } else {
                let ghost vv = argview(v);
                let out = vec![(v, i, j)];
                proof {
                    assert(argviews(out@) =~= seq![(vv, i as int, j as int)]);
                    assert(out@[0].1 == i && out@[0].2 == j);
                    assert forall|n: int| 0 <= n < out@.len() implies #[trigger] out@[n].1
                        <= out@[n].2 <= s@.len() by {
                        assert(n == 0);
                    }
                }
                Some((out, j))
            }
        },
    }
}

} // verus!

verus! {

fn make_missing_error(text: &str, a: usize, e: usize, name: &str, position: u64) -> (r: ExprParseError)
    requires
        a <= e <= text@.len(),
        name@ == text@.subrange(a as int, e as int),
    ensures
        (r.message@, r.start as int, r.end as int) == missing_error(text@, a as int, e as int, position as nat),
{
    let mut m = String::from_str("function ");
    m.append(name);
    m.append(" missing argumnt ");
    crate::tile_url::push_decimal(&mut m, position);
    ExprParseError { message: m, start: a, end: e }
}

fn make_type_error(
    text: &str,
    a: usize,
    e: usize,
    name: &str,
    position: u64,
    expected: &str,
    start: usize,
    end: usize,
) -> (r: ExprParseError)
    requires
        a <= e <= text@.len(),
        name@ == text@.subrange(a as int, e as int),
        start <= end <= text@.len(),
    ensures
        (r.message@, r.start as int, r.end as int) == type_error(
            text@,
            a as int,
            e as int,
            position as nat,
            expected@,
            start as int,
            end as int,
        ),
{
    let mut m = String::from_str("expected `");
    m.append(expected);
    m.append("` argument at position `");
    crate::tile_url::push_decimal(&mut m, position);
    m.append("` of function `");
    m.append(name);
    m.append("`, but got `");
    m.append(text.substring_char(start, end));
    m.append("`");
    ExprParseError { message: m, start, end }
}

fn make_count_error(
    text: &str,
    a: usize,
    e: usize,
    name: &str,
    used: u64,
    all: u64,
    start: usize,
    end: usize,
) -> (r: ExprParseError)
    requires
        a <= e <= text@.len(),
        name@ == text@.subrange(a as int, e as int),
    ensures
        (r.message@, r.start as int, r.end as int) == count_error(
            text@,
            a as int,
            e as int,
            used as nat,
            all as nat,
            start as int,
            end as int,
        ),
{
    let mut m = String::from_str("function ");
    m.append(name);
    m.append(" expected ");
    crate::tile_url::push_decimal(&mut m, used);
    m.append(" arguments but got ");
    crate::tile_url::push_decimal(&mut m, all);
    m.append(" instead");
    ExprParseError { message: m, start, end }
}

fn make_unknown_error(text: &str, a: usize, e: usize, name: &str) -> (r: ExprParseError)
    requires
        a <= e <= text@.len(),
        name@ == text@.subrange(a as int, e as int),
    ensures
        (r.message@, r.start as int, r.end as int) == unknown_error(text@, a as int, e as int),
{
    let mut m = String::from_str("Unknown function `");
    m.append(name);
    m.append("`");
    ExprParseError { message: m, start: a, end: e }
}

/// Checks a parsed call of the function named by `text[a..e]` and gives its value: the
/// function must exist and get arguments of the kinds it takes. An invalid call is `null`,
/// with the error that describes the first problem found.
fn check_call(
    text: &str,
    s: &Vec<char>,
    a: usize,
    e: usize,
    args: Vec<(FuncArgument, usize, usize)>,
    call_start: usize,
    call_end: usize,
) -> (r: (Expr, Option<ExprParseError>))
    requires
        text@ == s@,
        a < e <= s.len(),
        call_start <= call_end <= s.len(),
        spans_ok(args@, s@.len() as int),
    ensures
        pview(r.0) == call_value(s@, a as int, e as int, argviews(args@), call_start as int, call_end as int).0,
        match call_value(s@, a as int, e as int, argviews(args@), call_start as int, call_end as int).1 {
            Some(x) => r.1 matches Some(er) && (er.message@, er.start as int, er.end as int) == x,
            None => r.1 is None,
        },
{
    let name = text.substring_char(a, e);
    let n = args.len();
    let ghost av = argviews(args@);
    let mut args = args;
    if str_eq(name, "any") || str_eq(name, "all") {
        let is_any = str_eq(name, "any");
        if n == 0 {
            return (Expr::Value(ExprValue::Null), Some(make_missing_error(text, a, e, name, 1)));
        }
        let (first, start, end) = args.remove(0);
        match first {
            FuncArgument::Array(items) => {
                if n > 1 {
                    return (
                        Expr::Value(ExprValue::Null),
                        Some(make_count_error(text, a, e, name, 1, n as u64, call_start, call_end)),
                    );
                }
                if is_any {
                    proof {
                        lemma_pview_lists(items, Expr::Zoom);
                    }
                    let r = Expr::Any(items);
                    (r, None)
                } else {
                    proof {
                        lemma_pview_lists(items, Expr::Zoom);
                    }
                    let r = Expr::All(items);
                    (r, None)
                }
            },
            _ => (
                Expr::Value(ExprValue::Null),
                Some(make_type_error(text, a, e, name, 1, "[Array]", start, end)),
            ),
        }
    } else if str_eq(name, "not") {
        if n == 0 {
            return (Expr::Value(ExprValue::Null), Some(make_missing_error(text, a, e, name, 1)));
        }
        let (first, start, end) = args.remove(0);
        match first {
            FuncArgument::Expression(x) => {
                if n > 1 {
                    return (
                        Expr::Value(ExprValue::Null),
                        Some(make_count_error(text, a, e, name, 1, n as u64, call_start, call_end)),
                    );
                }
                (Expr::Not(Box::new(x)), None)
            },
            _ => (
                Expr::Value(ExprValue::Null),
                Some(make_type_error(text, a, e, name, 1, "Expression", start, end)),
            ),
        }
    } else if str_eq(name, "get") {
        if n == 0 {
            return (Expr::Value(ExprValue::Null), Some(make_missing_error(text, a, e, name, 1)));
        }
        let (first, start, end) = args.remove(0);
        match first {
            FuncArgument::Expression(Expr::Value(ExprValue::String(p))) => {
                if n > 1 {
                    return (
                        Expr::Value(ExprValue::Null),
                        Some(make_count_error(text, a, e, name, 1, n as u64, call_start, call_end)),
                    );
                }
                (Expr::Get(p), None)
            },
            _ => (
                Expr::Value(ExprValue::Null),
                Some(make_type_error(text, a, e, name, 1, "String", start, end)),
            ),
        }
    } else if str_eq(name, "in") {
        if n == 0 {
            return (Expr::Value(ExprValue::Null), Some(make_missing_error(text, a, e, name, 1)));
        }
        let (first, start, end) = args.remove(0);
        match first {
            FuncArgument::Expression(needle) => {
                if n == 1 {
                    return (Expr::Value(ExprValue::Null), Some(make_missing_error(text, a, e, name, 2)));
                }
                let (second, start2, end2) = args.remove(0);
                match second {
                    FuncArgument::Array(haystack) => {
                        if n > 2 {
                            return (
                                Expr::Value(ExprValue::Null),
                                Some(make_count_error(text, a, e, name, 2, n as u64, call_start, call_end)),
                            );
                        }
                        proof {
                            lemma_pview_lists(haystack, needle);
                        }
                        let r = Expr::In { needle: Box::new(needle), haystack };
                        (r, None)
                    },
                    _ => (
                        Expr::Value(ExprValue::Null),
                        Some(make_type_error(text, a, e, name, 2, "[Array]", start2, end2)),
                    ),
                }
            },
            _ => (
                Expr::Value(ExprValue::Null),
                Some(make_type_error(text, a, e, name, 1, "Expression", start, end)),
            ),
        }
    } else if str_eq(name, "geom_type") {
        if n > 0 {
            return (
                Expr::Value(ExprValue::Null),
                Some(make_count_error(text, a, e, name, 0, n as u64, call_start, call_end)),
            );
        }
        (Expr::GeomType, None)
    } else if str_eq(name, "zoom") {
        if n > 0 {
            return (
                Expr::Value(ExprValue::Null),
                Some(make_count_error(text, a, e, name, 0, n as u64, call_start, call_end)),
            );
        }
        (Expr::Zoom, None)
    } else {
        (Expr::Value(ExprValue::Null), Some(make_unknown_error(text, a, e, name)))
    }
}

fn x_call(
    text: &str,
    s: &Vec<char>,
    i: usize,
    nums: &Vec<Option<Num>>,
    errs: &mut Vec<ExprParseError>,
) -> (r: Option<(Expr, usize)>)
    requires
        text@ == s@,
        i <= s.len(),
        nums@.len() == s@.len(),
    ensures
        match p_call(s@, i as int, nums@) {
            Some((v, j, c)) => r matches Some((x, k)) && pview(x) == v && k as int == j && k
                <= s.len() && errs_ok(old(errs)@, final(errs)@, c),
            None => r is None && final(errs)@ == old(errs)@,
        },
    decreases s@.len() - i, 6nat,
{
    let a = skip_ws_x(s, i);
    match ident_end_x(s, a) {
        None => None,
        Some(e) => {
            if !(e < s.len() && s[e] == '(') {
                return None;
            }
            let saved = errs.len();
            let ghost e0 = errs@;
            match x_args(text, s, e + 1, nums, errs) {
                None => None,
                Some((args, j)) => {
                    if !(j < s.len() && s[j] == ')') {
                        errs.truncate(saved);
                        return None;
                    }
                    let end = skip_ws_x(s, j + 1);
                    let ghost e1 = errs@;
                    let ghost av = argviews(args@);
                    let (v, err) = check_call(text, s, a, e, args, i, end);
                    let ghost spec_err = call_value(s@, a as int, e as int, av, i as int, end as int).1;
                    match err {
                        Some(x) => {
                            let ghost before = errs@;
                            proof {
                                lemma_errs_push(before, x);
                            }
                            errs.push(x);
                        },
                        None => {
                            proof {
                                lemma_errs_same(errs@);
                            }
                        },
                    }
                    proof {
                        let c1 = p_args(s@, e + 1, nums@)->Some_0.2;
                        lemma_errs_chain(e0, e1, errs@, c1, call_errors(spec_err));
                    }
                    Some((v, end))
                },
            }
        },
    }
}

/// Parses the text syntax of an expression. `numbers[i]` is the binary64 value of the
/// number literal that starts at character `i`, where one does (see `number_end_x`).
/// On failure, every error found is returned, in the order found.
pub fn parse_expr(input: &str, numbers: &Vec<Option<Num>>) -> (r: Result<
    Expr,
    Vec<ExprParseError>,
>)
    requires
        numbers@.len() == input@.len(),
    ensures
        match parsed(input@, numbers@) {
            Some(v) => r matches Ok(e) && pview(e) == v,
            None => r matches Err(errs) && errs@.len() > 0 && errs_view(errs@) == parse_errors(
                input@,
                numbers@,
            ),
        },
{
    let s = chars_of(input);
    let mut errs: Vec<ExprParseError> = Vec::new();
    proof {
        assert(errs_view(errs@) =~= Seq::<PErr>::empty());
    }
    match x_expr(input, &s, 0, numbers, &mut errs) {
        Some((e, j)) => {
            if j == s.len() && errs.len() == 0 {
                return Ok(e);
            }
            if j < s.len() {
                let mut m = String::from_str("unexpected input `");
                m.append(input.substring_char(j, j + 1));
                m.append("`");
                let ghost before = errs@;
                proof {
                    lemma_errs_push(before, ExprParseError { message: m, start: j, end: (j + 1) as usize });
                }
                push_error(&mut errs, m, j, j + 1);
            }
            Err(errs)
        },
        None => {
            let m = if s.len() == 0 {
                String::from_str("unexpected end of input")
            } else {
                let mut m = String::from_str("unexpected input `");
                m.append(input.substring_char(0, 1));
                m.append("`");
                m
            };
            let end: usize = if s.len() == 0 { 0 } else { 1 };
            push_error(&mut errs, m, 0, end);
            Err(errs)
        },
    }
}

} // verus!
