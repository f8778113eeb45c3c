//! Reading style fields from JSON values, with the fallbacks that keep a
//! partially valid style usable: a field that is present but malformed is
//! replaced by its default instead of failing the whole document.

use vstd::prelude::*;
use crate::json::{JsonValue, Num};
use crate::text::str_eq;

verus! {

/// The value of the first member named `key` of an object's members.
pub open spec fn member_of(members: Seq<(String, JsonValue)>, key: Seq<char>) -> Option<JsonValue>
    decreases members.len(),
{
    if members.len() == 0 {
        None
    } else if members[0].0@ == key {
        Some(members[0].1)
    } else {
        member_of(members.drop_first(), key)
    }
}

/// A name is found at its first occurrence: where the member at `i` is the first named
/// `key`, its value is what the name finds; where no member is named `key`, nothing is found.
pub proof fn law_member_is_first_of_its_name(members: Seq<(String, JsonValue)>, key: Seq<char>, i: int)
    ensures
        0 <= i < members.len() && members[i].0@ == key && (forall|j: int|
            0 <= j < i ==> members[j].0@ != key) ==> member_of(members, key) == Some(members[i].1),
        (forall|j: int| 0 <= j < members.len() ==> members[j].0@ != key) ==> member_of(members, key)
            is None,
    decreases members.len(),
{
    if members.len() > 0 {
        let rest = members.drop_first();
        law_member_is_first_of_its_name(rest, key, i - 1);
        if (forall|j: int| 0 <= j < members.len() ==> members[j].0@ != key) {
            assert(members[0].0@ != key);
            assert forall|j: int| 0 <= j < rest.len() implies rest[j].0@ != key by {
                assert(rest[j] == members[j + 1]);
            }
        }
        if 0 < i < members.len() && members[i].0@ == key && (forall|j: int|
            0 <= j < i ==> members[j].0@ != key) {
            assert(members[0].0@ != key);
            assert(rest[i - 1] == members[i]);
            assert forall|j: int| 0 <= j < i - 1 implies rest[j].0@ != key by {
                assert(rest[j] == members[j + 1]);
            }
        }
    }
}

/// The first member named `key` of an object's members.
pub fn member<'a>(members: &'a Vec<(String, JsonValue)>, key: &str) -> (r: Option<&'a JsonValue>)
    ensures
        match r {
            Some(v) => member_of(members@, key@) == Some(*v),
            None => member_of(members@, key@) is None,
        },
{
    let mut i: usize = 0;
    assert(members@.subrange(0, members@.len() as int) =~= members@);
    while i < members.len()
        invariant
            i <= members@.len(),
            member_of(members@, key@) == member_of(members@.subrange(i as int, members@.len() as int), key@),
        decreases members@.len() - i,
    {
        let ghost rest = members@.subrange(i as int, members@.len() as int);
        assert(rest.drop_first() =~= members@.subrange(i + 1, members@.len() as int));
        if str_eq(members[i].0.as_str(), key) {
            return Some(&members[i].1);
        }
        i = i + 1;
    }
    None
}

/// A number read as `f64`: any JSON number is one.
pub open spec fn num_of(v: JsonValue) -> Option<Num> {
    match v {
        JsonValue::Number(n) => Some(n.value),
        _ => None,
    }
}

/// A number read as `u8`: a non-negative integer up to 255.
pub open spec fn u8_of(v: JsonValue) -> Option<u8> {
    match v {
        JsonValue::Number(n) => match n.unsigned {
            Some(u) => if u <= 255 {
                Some(u as u8)
            } else {
                None
            },
            None => None,
        },
        _ => None,
    }
}

/// Reads a number; `null` and values that are no number give `fallback`.
pub fn num_with_fallback(v: &JsonValue, fallback: Num) -> (r: Num)
    ensures
        r == (match num_of(*v) {
            Some(n) => n,
            None => fallback,
        }),
{
    match v {
        JsonValue::Number(n) => n.value,
        _ => fallback,
    }
}

/// Reads an optional number; `null` and values that are no number give `None`.
pub fn opt_num(v: &JsonValue) -> (r: Option<Num>)
    ensures
        r == num_of(*v),
{
    match v {
        JsonValue::Number(n) => Some(n.value),
        _ => None,
    }
}

/// Reads a zoom level as `u8`; `null` and values that are no integer from 0 to 255 give
/// `fallback`.
pub fn u8_with_fallback(v: &JsonValue, fallback: u8) -> (r: u8)
    ensures
        r == (match u8_of(*v) {
            Some(n) => n,
            None => fallback,
        }),
{
    match v {
        JsonValue::Number(n) => match n.unsigned {
            Some(u) => if u <= 255 {
                u as u8
            } else {
                fallback
            },
            None => fallback,
        },
        _ => fallback,
    }
}

/// The numbers of an array of exactly `len` numbers.
pub open spec fn nums_of(v: JsonValue, len: nat) -> Option<Seq<Num>> {
    match v {
        JsonValue::Array(a) => if a@.len() == len && forall|i: int|
            0 <= i < a@.len() ==> (#[trigger] num_of(a@[i])) is Some {
            Some(Seq::new(len, |i: int| num_of(a@[i])->Some_0))
        } else {
            None
        },
        _ => None,
    }
}

/// Reads an array of exactly `len` numbers; anything else gives `None`.
pub fn opt_nums(v: &JsonValue, len: usize) -> (r: Option<Vec<Num>>)
    ensures
        match r {
            Some(ns) => nums_of(*v, len as nat) == Some(ns@),
            None => nums_of(*v, len as nat) is None,
        },
{
    match v {
        JsonValue::Array(a) => {
            if a.len() != len {
                return None;
            }
            let mut out: Vec<Num> = Vec::new();
            let mut i: usize = 0;
            while i < a.len()
                invariant
                    *v == JsonValue::Array(*a),
                    i <= a@.len(),
                    a@.len() == len,
                    out@.len() == i,
                    forall|k: int| 0 <= k < i ==> num_of(#[trigger] a@[k]) == Some(out@[k]),
                decreases a@.len() - i,
            {
                match &a[i] {
                    JsonValue::Number(n) => out.push(n.value),
                    _ => {
                        assert(num_of(a@[i as int]) is None);
                        assert(!(forall|k: int| 0 <= k < a@.len() ==> (#[trigger] num_of(a@[k])) is Some));
                        return None;
                    },
                }
                i = i + 1;
            }
            assert(out@ =~= Seq::new(len as nat, |k: int| num_of(a@[k])->Some_0));
            Some(out)
        },
        _ => None,
    }
}

/// The variant named by a JSON value for an enum whose variants are all units: its name as a
/// string, or an object with that name as its only member and `null` as its value.
pub open spec fn variant_name(v: JsonValue) -> Option<Seq<char>> {
    match v {
        JsonValue::String(s) => Some(s@),
        JsonValue::Object(members) => if members@.len() == 1 && members@[0].1 is Null {
            Some(members@[0].0@)
        } else {
            None
        },
        _ => None,
    }
}

/// Reads the name of a unit variant, where the value names one.
pub fn variant_name_of(v: &JsonValue) -> (r: Option<&str>)
    ensures
        match r {
            Some(s) => variant_name(*v) == Some(s@),
            None => variant_name(*v) is None,
        },
{
    match v {
        JsonValue::String(s) => Some(s.as_str()),
        JsonValue::Object(members) => {
            if members.len() == 1 {
                match &members[0].1 {
                    JsonValue::Null => Some(members[0].0.as_str()),
                    _ => None,
                }
            } else {
                None
            }
        },
        _ => None,
    }
}

/// An optional string member: absent or `null` is `None`, a string is kept, and anything else
/// makes the member invalid (the outer `None`).
pub open spec fn opt_string_field(m: Option<JsonValue>) -> Option<Option<String>> {
    match m {
        None => Some(None),
        Some(JsonValue::Null) => Some(None),
        Some(JsonValue::String(s)) => Some(Some(s)),
        _ => None,
    }
}

/// A required string member: present and a string.
pub open spec fn string_field(m: Option<JsonValue>) -> Option<String> {
    match m {
        Some(JsonValue::String(s)) => Some(s),
        _ => None,
    }
}

/// Reads an optional string member.
pub fn read_opt_string(members: &Vec<(String, JsonValue)>, key: &str) -> (r: Option<Option<String>>)
    ensures
        r == opt_string_field(member_of(members@, key@)),
{
    match member(members, key) {
        None => Some(None),
        Some(JsonValue::Null) => Some(None),
        Some(JsonValue::String(s)) => Some(Some(s.clone())),
        Some(_) => None,
    }
}

/// Reads a required string member.
pub fn read_string(members: &Vec<(String, JsonValue)>, key: &str) -> (r: Option<String>)
    ensures
        r == string_field(member_of(members@, key@)),
{
    match member(members, key) {
        Some(JsonValue::String(s)) => Some(s.clone()),
        _ => None,
    }
}

/// The strings of an array of strings.
pub open spec fn strings_of(v: JsonValue) -> Option<Seq<String>> {
    match v {
        JsonValue::Array(a) => if forall|i: int|
            0 <= i < a@.len() ==> (#[trigger] a@[i]) is String {
            Some(Seq::new(a@.len(), |i: int| a@[i]->String_0))
        } else {
            None
        },
        _ => None,
    }
}

/// Reads an array of strings.
pub fn read_strings(v: &JsonValue) -> (r: Option<Vec<String>>)
    ensures
        match r {
            Some(ss) => strings_of(*v) == Some(ss@),
            None => strings_of(*v) is None,
        },
{
    match v {
        JsonValue::Array(a) => {
            let mut out: Vec<String> = Vec::new();
            let mut i: usize = 0;
            while i < a.len()
                invariant
                    *v == JsonValue::Array(*a),
                    i <= a@.len(),
                    out@.len() == i,
                    forall|k: int| 0 <= k < i ==> (#[trigger] a@[k]) is String && out@[k] == a@[k]->String_0,
                decreases a@.len() - i,
            {
                match &a[i] {
                    JsonValue::String(s) => out.push(s.clone()),
                    _ => {
                        assert(!(a@[i as int] is String));
                        return None;
                    },
                }
                i = i + 1;
            }
            assert(out@ =~= Seq::new(a@.len(), |k: int| a@[k]->String_0));
            Some(out)
        },
        _ => None,
    }
}

/// An optional member holding an array of strings: absent or `null` is `None`.
pub open spec fn opt_strings_field(m: Option<JsonValue>) -> Option<Option<Seq<String>>> {
    match m {
        None => Some(None),
        Some(JsonValue::Null) => Some(None),
        Some(v) => match strings_of(v) {
            Some(ss) => Some(Some(ss)),
            None => None,
        },
    }
}

/// `r` holds what an optional array-of-strings member reads as.
pub open spec fn strings_read_as(r: Option<Vec<String>>, f: Option<Seq<String>>) -> bool {
    match f {
        None => r is None,
        Some(ss) => r matches Some(v) && v@ == ss,
    }
}

/// Reads an optional member holding an array of strings.
pub fn read_opt_strings(members: &Vec<(String, JsonValue)>, key: &str) -> (r: Option<Option<Vec<String>>>)
    ensures
        match opt_strings_field(member_of(members@, key@)) {
            None => r is None,
            Some(f) => r matches Some(x) && strings_read_as(x, f),
        },
{
    match member(members, key) {
        None => Some(None),
        Some(JsonValue::Null) => Some(None),
        Some(v) => match read_strings(v) {
            Some(ss) => Some(Some(ss)),
            None => None,
        },
    }
}

/// A member holding an array of strings that defaults to the empty array when absent.
pub open spec fn strings_field_or_empty(m: Option<JsonValue>) -> Option<Seq<String>> {
    match m {
        None => Some(Seq::empty()),
        Some(v) => strings_of(v),
    }
}

/// Reads a member holding an array of strings, empty when absent.
pub fn read_strings_or_empty(members: &Vec<(String, JsonValue)>, key: &str) -> (r: Option<Vec<String>>)
    ensures
        match strings_field_or_empty(member_of(members@, key@)) {
            None => r is None,
            Some(ss) => r matches Some(v) && v@ == ss,
        },
{
    match member(members, key) {
        None => Some(Vec::new()),
        Some(v) => read_strings(v),
    }
}

/// A boolean member that defaults to `false` when absent; anything but a boolean is invalid.
pub open spec fn bool_field(m: Option<JsonValue>) -> Option<bool> {
    match m {
        None => Some(false),
        Some(JsonValue::Bool(b)) => Some(b),
        _ => None,
    }
}

/// Reads a boolean member that defaults to `false`.
pub fn read_bool(members: &Vec<(String, JsonValue)>, key: &str) -> (r: Option<bool>)
    ensures
        r == bool_field(member_of(members@, key@)),
{
    match member(members, key) {
        None => Some(false),
        Some(JsonValue::Bool(b)) => Some(*b),
        Some(_) => None,
    }
}

/// A number member with a default for when it is absent, or for when it is `null` or no
/// number: such a member never makes its object invalid.
pub open spec fn num_or(m: Option<JsonValue>, fallback: Num) -> Num {
    match m {
        Some(v) => match num_of(v) {
            Some(n) => n,
            None => fallback,
        },
        None => fallback,
    }
}

/// Reads a number member, with `fallback` where it is absent, `null` or no number.
pub fn read_num_or(members: &Vec<(String, JsonValue)>, key: &str, fallback: Num) -> (r: Num)
    ensures
        r == num_or(member_of(members@, key@), fallback),
{
    match member(members, key) {
        Some(v) => num_with_fallback(v, fallback),
        None => fallback,
    }
}

/// A number member with a default for when it is absent; anything but a number is invalid.
pub open spec fn num_field(m: Option<JsonValue>, fallback: Num) -> Option<Num> {
    match m {
        None => Some(fallback),
        Some(v) => num_of(v),
    }
}

/// Reads a number member that must be a number where present.
pub fn read_num(members: &Vec<(String, JsonValue)>, key: &str, fallback: Num) -> (r: Option<Num>)
    ensures
        r == num_field(member_of(members@, key@), fallback),
{
    match member(members, key) {
        None => Some(fallback),
        Some(v) => opt_num(v),
    }
}

/// An optional number member: absent or `null` is `None`; anything else but a number is invalid.
pub open spec fn opt_num_field(m: Option<JsonValue>) -> Option<Option<Num>> {
    match m {
        None => Some(None),
        Some(JsonValue::Null) => Some(None),
        Some(v) => match num_of(v) {
            Some(n) => Some(Some(n)),
            None => None,
        },
    }
}

/// Reads an optional number member.
pub fn read_opt_num(members: &Vec<(String, JsonValue)>, key: &str) -> (r: Option<Option<Num>>)
    ensures
        r == opt_num_field(member_of(members@, key@)),
{
    match member(members, key) {
        None => Some(None),
        Some(JsonValue::Null) => Some(None),
        Some(v) => match opt_num(v) {
            Some(n) => Some(Some(n)),
            None => None,
        },
    }
}

/// An optional member holding exactly `len` numbers: absent or `null` is `None`.
pub open spec fn opt_nums_field(m: Option<JsonValue>, len: nat) -> Option<Option<Seq<Num>>> {
    match m {
        None => Some(None),
        Some(JsonValue::Null) => Some(None),
        Some(v) => match nums_of(v, len) {
            Some(ns) => Some(Some(ns)),
            None => None,
        },
    }
}

/// Reads optional bounds `[west, south, east, north]` that must be four numbers where present.
pub fn read_opt_bounds(members: &Vec<(String, JsonValue)>, key: &str) -> (r: Option<Option<[Num; 4]>>)
    ensures
        match opt_nums_field(member_of(members@, key@), 4) {
            None => r is None,
            Some(None) => r == Some(None::<[Num; 4]>),
            Some(Some(ns)) => r matches Some(Some(b)) && b@ == ns,
        },
{
    match member(members, key) {
        None => Some(None),
        Some(JsonValue::Null) => Some(None),
        Some(v) => match opt_nums(v, 4) {
            Some(ns) => {
                let b = [ns[0], ns[1], ns[2], ns[3]];
                assert(b@ =~= ns@);
                Some(Some(b))
            },
            None => None,
        },
    }
}

/// The four corners `[longitude, latitude]` of an image or video.
pub open spec fn corners_of(v: JsonValue) -> Option<Seq<Seq<Num>>> {
    match v {
        JsonValue::Array(a) => if a@.len() == 4 && forall|i: int|
            0 <= i < 4 ==> (#[trigger] nums_of(a@[i], 2)) is Some {
            Some(Seq::new(4, |i: int| nums_of(a@[i], 2)->Some_0))
        } else {
            None
        },
        _ => None,
    }
}

/// Reads the required four corners of an image or video.
pub fn read_corners(members: &Vec<(String, JsonValue)>, key: &str) -> (r: Option<[[Num; 2]; 4]>)
    ensures
        match member_of(members@, key@) {
            Some(v) => match corners_of(v) {
                Some(cs) => r matches Some(c) && Seq::new(4, |i: int| c@[i]@) == cs,
                None => r is None,
            },
            None => r is None,
        },
{
    match member(members, key) {
        Some(JsonValue::Array(a)) => {
            if a.len() != 4 {
                return None;
            }
            let c0 = match opt_nums(&a[0], 2) { Some(ns) => [ns[0], ns[1]], None => { return None; } };
            let c1 = match opt_nums(&a[1], 2) { Some(ns) => [ns[0], ns[1]], None => { return None; } };
            let c2 = match opt_nums(&a[2], 2) { Some(ns) => [ns[0], ns[1]], None => { return None; } };
            let c3 = match opt_nums(&a[3], 2) { Some(ns) => [ns[0], ns[1]], None => { return None; } };
            let c = [c0, c1, c2, c3];
            proof {
                let v = JsonValue::Array(*a);
                assert(forall|i: int| 0 <= i < 4 ==> (#[trigger] nums_of(a@[i], 2)) is Some) by {
                    assert(nums_of(a@[0], 2) is Some);
                    assert(nums_of(a@[1], 2) is Some);
                    assert(nums_of(a@[2], 2) is Some);
                    assert(nums_of(a@[3], 2) is Some);
                }
                assert(c0@ =~= nums_of(a@[0], 2)->Some_0);
                assert(c1@ =~= nums_of(a@[1], 2)->Some_0);
                assert(c2@ =~= nums_of(a@[2], 2)->Some_0);
                assert(c3@ =~= nums_of(a@[3], 2)->Some_0);
                assert(Seq::new(4, |i: int| c@[i]@) =~= corners_of(v)->Some_0);
            }
            Some(c)
        },
        _ => None,
    }
}

/// Replacing the value of a member leaves what every other name finds unchanged.
pub proof fn lemma_member_of_update(s: Seq<(String, JsonValue)>, i: int, x: JsonValue, key: Seq<char>)
    requires
        0 <= i < s.len(),
        s[i].0@ != key,
    ensures
        member_of(s.update(i, (s[i].0, x)), key) == member_of(s, key),
    decreases s.len(),
{
    let t = s.update(i, (s[i].0, x));
    if i > 0 {
        lemma_member_of_update(s.drop_first(), i - 1, x, key);
        assert(t.drop_first() =~= s.drop_first().update(i - 1, (s[i].0, x)));
    } else {
        assert(t.drop_first() =~= s.drop_first());
    }
}

/// Takes the value of the first member named `key` out of an object's members, leaving `null`
/// in its place: what every other name finds stays as it was.
pub fn take_member(members: &mut Vec<(String, JsonValue)>, key: &str) -> (r: Option<JsonValue>)
    ensures
        r == member_of(old(members)@, key@),
        forall|k: Seq<char>| k != key@ ==> member_of(final(members)@, k) == member_of(old(members)@, k),
{
    let ghost orig = members@;
    let mut i: usize = 0;
    assert(orig.subrange(0, orig.len() as int) =~= orig);
    while i < members.len()
        invariant
            members@ == orig,
            old(members)@ == orig,
            i <= orig.len(),
            member_of(orig, key@) == member_of(orig.subrange(i as int, orig.len() as int), key@),
        decreases orig.len() - i,
    {
        let ghost rest = orig.subrange(i as int, orig.len() as int);
        assert(rest.drop_first() =~= orig.subrange(i + 1, orig.len() as int));
        if crate::text::str_eq(members[i].0.as_str(), key) {
            let (name, value) = members.remove(i);
            members.insert(i, (name, JsonValue::Null));
            proof {
                assert(rest[0] == orig[i as int]);
                assert(value == orig[i as int].1);
                assert(members@ =~= orig.update(i as int, (orig[i as int].0, JsonValue::Null)));
                assert forall|k: Seq<char>| k != key@ implies member_of(members@, k) == member_of(orig, k) by {
                    lemma_member_of_update(orig, i as int, JsonValue::Null, k);
                }
            }
            return Some(value);
        }
        i = i + 1;
    }
    None
}

/// Why a text or a JSON value is no document of the expected kind.
#[derive(Debug, PartialEq)]
pub enum DocumentError {
    /// The text is not JSON.
    NotJson,
    /// The value is not a JSON object.
    NotAnObject,
    /// A required member is missing, or a member that has no fallback is malformed.
    InvalidField,
}

/// A zoom level member read as `u8`, with `fallback` where it is absent, `null` or no integer
/// from 0 to 255.
pub open spec fn u8_or(m: Option<JsonValue>, fallback: u8) -> u8 {
    match m {
        Some(v) => match u8_of(v) {
            Some(n) => n,
            None => fallback,
        },
        None => fallback,
    }
}

/// Reads a zoom level member as `u8`, with `fallback` where it is absent or malformed.
pub fn read_u8_or(members: &Vec<(String, JsonValue)>, key: &str, fallback: u8) -> (r: u8)
    ensures
        r == u8_or(member_of(members@, key@), fallback),
{
    match member(members, key) {
        Some(v) => u8_with_fallback(v, fallback),
        None => fallback,
    }
}

/// An optional `u8` member: absent or `null` is `None`; anything but an integer from 0 to 255
/// is invalid.
pub open spec fn opt_u8_field(m: Option<JsonValue>) -> Option<Option<u8>> {
    match m {
        None => Some(None),
        Some(JsonValue::Null) => Some(None),
        Some(v) => match u8_of(v) {
            Some(n) => Some(Some(n)),
            None => None,
        },
    }
}

/// Reads an optional `u8` member.
pub fn read_opt_u8(members: &Vec<(String, JsonValue)>, key: &str) -> (r: Option<Option<u8>>)
    ensures
        r == opt_u8_field(member_of(members@, key@)),
{
    match member(members, key) {
        None => Some(None),
        Some(JsonValue::Null) => Some(None),
        Some(v) => {
            match v {
                JsonValue::Number(n) => match n.unsigned {
                    Some(u) => if u <= 255 {
                        Some(Some(u as u8))
                    } else {
                        None
                    },
                    None => None,
                },
                _ => None,
            }
        },
    }
}

/// Whether no name occurs twice in a list of names.
pub open spec fn distinct_names(keys: Seq<&str>) -> bool {
    forall|i: int, j: int| 0 <= i < j < keys.len() ==> keys[i]@ != keys[j]@
}

/// Takes the values of the members named by `keys` out of an object's members: the value of
/// the first member of each name, or `None` where the object has none.
pub fn take_members(members: Vec<(String, JsonValue)>, keys: &Vec<&str>) -> (r: Vec<Option<JsonValue>>)
    requires
        distinct_names(keys@),
    ensures
        r@.len() == keys@.len(),
        forall|i: int| 0 <= i < keys@.len() ==> #[trigger] r@[i] == member_of(members@, keys@[i]@),
{
    let ghost orig = members@;
    let mut members = members;
    let mut out: Vec<Option<JsonValue>> = Vec::new();
    let mut i: usize = 0;
    while i < keys.len()
        invariant
            distinct_names(keys@),
            i <= keys@.len(),
            out@.len() == i,
            forall|j: int| 0 <= j < i ==> #[trigger] out@[j] == member_of(orig, keys@[j]@),
            forall|j: int| i <= j < keys@.len() ==> member_of(members@, #[trigger] keys@[j]@) == member_of(orig, keys@[j]@),
        decreases keys@.len() - i,
    {
        let ghost before = members@;
        let v = take_member(&mut members, keys[i]);
        out.push(v);
        assert forall|j: int| i + 1 <= j < keys@.len() implies member_of(members@, #[trigger] keys@[j]@) == member_of(orig, keys@[j]@) by {
            assert(keys@[i as int]@ != keys@[j]@);
        }
        i = i + 1;
    }
    out
}

/// Removes and returns the first of a list of taken values.
pub fn next_value(vals: &mut Vec<Option<JsonValue>>) -> (r: Option<JsonValue>)
    requires
        old(vals)@.len() > 0,
    ensures
        r == old(vals)@[0],
        final(vals)@ == old(vals)@.drop_first(),
{
    let r = vals.remove(0);
    assert(vals@ =~= old(vals)@.drop_first());
    r
}

/// A member kept as it is, where it is present and not `null`.
pub open spec fn present_value(m: Option<JsonValue>) -> Option<JsonValue> {
    match m {
        Some(JsonValue::Null) => None,
        _ => m,
    }
}

/// Keeps a taken member where it is present and not `null`.
pub fn present(m: Option<JsonValue>) -> (r: Option<JsonValue>)
    ensures
        r == present_value(m),
{
    match m {
        Some(JsonValue::Null) => None,
        other => other,
    }
}

/// An optional number member read leniently: absent, `null` and values that are no number
/// give `None`.
pub open spec fn lenient_num(m: Option<JsonValue>) -> Option<Num> {
    match m {
        Some(v) => num_of(v),
        None => None,
    }
}

/// Reads an optional number member leniently.
pub fn read_lenient_num(members: &Vec<(String, JsonValue)>, key: &str) -> (r: Option<Num>)
    ensures
        r == lenient_num(member_of(members@, key@)),
{
    match member(members, key) {
        Some(v) => opt_num(v),
        None => None,
    }
}

/// The numbers of a member that must be `len` numbers, or `None` where it is absent, `null`
/// or anything else.
pub open spec fn lenient_nums(m: Option<JsonValue>, len: nat) -> Option<Seq<Num>> {
    match m {
        Some(v) => nums_of(v, len),
        None => None,
    }
}

/// A member appended under another name leaves what `key` finds unchanged.
pub proof fn lemma_member_of_push(m: Seq<(String, JsonValue)>, entry: (String, JsonValue), key: Seq<char>)
    requires
        entry.0@ != key,
    ensures
        member_of(m.push(entry), key) == member_of(m, key),
    decreases m.len(),
{
    let p = m.push(entry);
    reveal_with_fuel(member_of, 2);
    if m.len() > 0 {
        lemma_member_of_push(m.drop_first(), entry, key);
        assert(p[0] == m[0]);
        assert(p.drop_first() =~= m.drop_first().push(entry));
    } else {
        assert(p[0] == entry);
        assert(p.drop_first() =~= Seq::<(String, JsonValue)>::empty());
    }
}

} // verus!