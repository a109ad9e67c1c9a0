use vstd::prelude::*;
use crate::text::{is_ws, is_ws_char, str_to_chars, chars_to_string, copy_range};

verus! {

broadcast use vstd::std_specs::vec::group_vec_axioms;

/// One parsed JSON value. A number keeps its literal token text, so that no
/// precision is lost between the wire and the record.
#[derive(Debug)]
pub enum JsonValue {
    Null,
    Bool(bool),
    Number(String),
    Text(String),
    Array(Vec<JsonValue>),
    Object(Vec<(String, JsonValue)>),
}

/// The mathematical shape of a JSON value, which the contracts speak of.
pub enum JsonModel {
    Null,
    Bool(bool),
    Number(Seq<char>),
    Text(Seq<char>),
    Array(Seq<JsonModel>),
    Object(Seq<(Seq<char>, JsonModel)>),
}

/// The models of a sequence of values.
pub open spec fn model_seq(s: Seq<JsonValue>) -> Seq<JsonModel>
    decreases s,
{
    Seq::new(
        s.len(),
        |i: int|
            if 0 <= i < s.len() {
                model_of(s[i])
            } else {
                JsonModel::Null
            },
    )
}

/// The models of a sequence of members.
pub open spec fn member_models(s: Seq<(String, JsonValue)>) -> Seq<(Seq<char>, JsonModel)>
    decreases s,
{
    Seq::new(
        s.len(),
        |i: int|
            if 0 <= i < s.len() {
                (s[i].0@, model_of(s[i].1))
            } else {
                (Seq::empty(), JsonModel::Null)
            },
    )
}

/// The model of a parsed value.
pub open spec fn model_of(v: JsonValue) -> JsonModel
    decreases v,
{
    match v {
        JsonValue::Null => JsonModel::Null,
        JsonValue::Bool(b) => JsonModel::Bool(b),
        JsonValue::Number(t) => JsonModel::Number(t@),
        JsonValue::Text(s) => JsonModel::Text(s@),
        JsonValue::Array(items) => JsonModel::Array(model_seq(items@)),
        JsonValue::Object(members) => JsonModel::Object(member_models(members@)),
    }
}

/// The first position at or after `i` holding no whitespace.
pub open spec fn sp_ws(s: Seq<char>, i: int) -> int
    decreases s.len() - i,
{
    if 0 <= i < s.len() && is_ws(s[i]) {
        sp_ws(s, i + 1)
    } else {
        i
    }
}

/// A decimal digit.
pub open spec fn is_digit(c: char) -> bool {
    48 <= (c as u32) && (c as u32) <= 57
}

/// The first position at or after `i` holding no decimal digit.
pub open spec fn sp_digits(s: Seq<char>, i: int) -> int
    decreases s.len() - i,
{
    if 0 <= i < s.len() && is_digit(s[i]) {
        sp_digits(s, i + 1)
    } else {
        i
    }
}

/// Where the number token starting at `i` ends, if one starts there.
pub open spec fn sp_number_end(s: Seq<char>, i: int) -> Option<int> {
    let j0 = if i < s.len() && s[i] == '-' {
        i + 1
    } else {
        i
    };
    if !(0 <= j0 && j0 < s.len() && is_digit(s[j0])) {
        None
    } else {
        let j1 = if s[j0] == '0' {
            j0 + 1
        } else {
            sp_digits(s, j0)
        };
        let j2o = if j1 < s.len() && s[j1] == '.' {
            if sp_digits(s, j1 + 1) == j1 + 1 {
                None
            } else {
                Some(sp_digits(s, j1 + 1))
            }
        } else {
            Some(j1)
        };
        match j2o {
            None => None,
            Some(j2) => if j2 < s.len() && (s[j2] == 'e' || s[j2] == 'E') {
                let m = if j2 + 1 < s.len() && (s[j2 + 1] == '+' || s[j2 + 1] == '-') {
                    j2 + 2
                } else {
                    j2 + 1
                };
                if sp_digits(s, m) == m {
                    None
                } else {
                    Some(sp_digits(s, m))
                }
            } else {
                Some(j2)
            },
        }
    }
}

/// A whole string is one valid number token.
pub open spec fn is_number_token(s: Seq<char>) -> bool {
    sp_number_end(s, 0) == Some(s.len() as int)
}

/// The value of one hexadecimal digit.
pub open spec fn sp_hex(c: char) -> Option<u32> {
    let n = c as u32;
    if 48 <= n && n <= 57 {
        Some((n - 48) as u32)
    } else if 97 <= n && n <= 102 {
        Some((n - 87) as u32)
    } else if 65 <= n && n <= 70 {
        Some((n - 55) as u32)
    } else {
        None
    }
}

/// The value of the four hexadecimal digits at `i`, if they stand there.
pub open spec fn sp_hex4(s: Seq<char>, i: int) -> Option<u32> {
    if 0 <= i && i + 4 <= s.len() && sp_hex(s[i]) is Some && sp_hex(s[i + 1]) is Some && sp_hex(
        s[i + 2],
    ) is Some && sp_hex(s[i + 3]) is Some {
        Some(
            (sp_hex(s[i]).unwrap() * 4096 + sp_hex(s[i + 1]).unwrap() * 256 + sp_hex(
                s[i + 2],
            ).unwrap() * 16 + sp_hex(s[i + 3]).unwrap()) as u32,
        )
    } else {
        None
    }
}

/// What a single-letter escape stands for.
pub open spec fn sp_escape(c: char) -> Option<char> {
    if c == '"' {
        Some('"')
    } else if c == '\\' {
        Some('\\')
    } else if c == '/' {
        Some('/')
    } else if c == 'b' {
        Some('\u{8}')
    } else if c == 'f' {
        Some('\u{c}')
    } else if c == 'n' {
        Some('\n')
    } else if c == 'r' {
        Some('\r')
    } else if c == 't' {
        Some('\t')
    } else {
        None
    }
}

/// The decoded content and end position of the string whose opening quote
/// stands just before `i`, if the text from `i` on closes it correctly.
pub open spec fn sp_string_body(s: Seq<char>, i: int) -> Option<(Seq<char>, int)>
    decreases s.len() - i,
{
    if !(0 <= i && i < s.len()) {
        None
    } else if s[i] == '"' {
        Some((Seq::empty(), i + 1))
    } else if s[i] == '\\' {
        if i + 2 > s.len() {
            None
        } else {
            let e = s[i + 1];
            if e == 'u' {
                match sp_hex4(s, i + 2) {
                    None => None,
                    Some(n) => if 0xD800 <= n && n < 0xDC00 {
                        if i + 12 <= s.len() && s[i + 6] == '\\' && s[i + 7] == 'u' {
                            match sp_hex4(s, i + 8) {
                                None => None,
                                Some(lo) => if 0xDC00 <= lo && lo < 0xE000 {
                                    match sp_string_body(s, i + 12) {
                                        None => None,
                                        Some(p) => Some(
                                            (
                                                seq![
                                                    ((0x10000 + (n - 0xD800) * 0x400 + (lo
                                                        - 0xDC00)) as u32) as char,
                                                ] + p.0,
                                                p.1,
                                            ),
                                        ),
                                    }
                                } else {
                                    None
                                },
                            }
                        } else {
                            None
                        }
                    } else if 0xDC00 <= n && n < 0xE000 {
                        None
                    } else {
                        match sp_string_body(s, i + 6) {
                            None => None,
                            Some(p) => Some((seq![n as char] + p.0, p.1)),
                        }
                    },
                }
            } else {
                match sp_escape(e) {
                    None => None,
                    Some(c) => match sp_string_body(s, i + 2) {
                        None => None,
                        Some(p) => Some((seq![c] + p.0, p.1)),
                    },
                }
            }
        }
    } else if (s[i] as u32) < 32 {
        None
    } else {
        match sp_string_body(s, i + 1) {
            None => None,
            Some(p) => Some((seq![s[i]] + p.0, p.1)),
        }
    }
}

/// The value starting at `i` and its end position, if the text from `i` on
/// is one valid JSON value. The fuel bounds the nesting the scan follows.
pub open spec fn sp_value(s: Seq<char>, i: int, fuel: nat) -> Option<(JsonModel, int)>
    decreases fuel,
{
    if fuel == 0 {
        None
    } else if !(0 <= i && i < s.len()) {
        None
    } else {
        let c = s[i];
        if c == 'n' {
            if i + 4 <= s.len() && s[i + 1] == 'u' && s[i + 2] == 'l' && s[i + 3] == 'l' {
                Some((JsonModel::Null, i + 4))
            } else {
                None
            }
        } else if c == 't' {
            if i + 4 <= s.len() && s[i + 1] == 'r' && s[i + 2] == 'u' && s[i + 3] == 'e' {
                Some((JsonModel::Bool(true), i + 4))
            } else {
                None
            }
        } else if c == 'f' {
            if i + 5 <= s.len() && s[i + 1] == 'a' && s[i + 2] == 'l' && s[i + 3] == 's' && s[i + 4]
                == 'e' {
                Some((JsonModel::Bool(false), i + 5))
            } else {
                None
            }
        } else if c == '"' {
            match sp_string_body(s, i + 1) {
                None => None,
                Some(p) => Some((JsonModel::Text(p.0), p.1)),
            }
        } else if c == '[' {
            match sp_array_items(s, sp_ws(s, i + 1), (fuel - 1) as nat) {
                None => None,
                Some(p) => Some((JsonModel::Array(p.0), p.1)),
            }
        } else if c == '{' {
            match sp_members(s, sp_ws(s, i + 1), (fuel - 1) as nat) {
                None => None,
                Some(p) => Some((JsonModel::Object(p.0), p.1)),
            }
        } else {
            match sp_number_end(s, i) {
                None => None,
                Some(j) => Some((JsonModel::Number(s.subrange(i, j)), j)),
            }
        }
    }
}

/// The items of the array whose opening bracket stands before `i`, and the
/// position past its closing bracket; `i` is the first non-whitespace
/// position inside it.
pub open spec fn sp_array_items(s: Seq<char>, i: int, fuel: nat) -> Option<(Seq<JsonModel>, int)>
    decreases fuel,
{
    if fuel == 0 {
        None
    } else if !(0 <= i && i < s.len()) {
        None
    } else if s[i] == ']' {
        Some((Seq::empty(), i + 1))
    } else {
        match sp_value(s, i, (fuel - 1) as nat) {
            None => None,
            Some(p) => match sp_array_tail(s, sp_ws(s, p.1), (fuel - 1) as nat) {
                None => None,
                Some(q) => Some((seq![p.0] + q.0, q.1)),
            },
        }
    }
}

/// The remaining items of an array once one item has been read; `i` is the
/// first non-whitespace position after that item.
pub open spec fn sp_array_tail(s: Seq<char>, i: int, fuel: nat) -> Option<(Seq<JsonModel>, int)>
    decreases fuel,
{
    if fuel == 0 {
        None
    } else if !(0 <= i && i < s.len()) {
        None
    } else if s[i] == ']' {
        Some((Seq::empty(), i + 1))
    } else if s[i] == ',' {
        match sp_value(s, sp_ws(s, i + 1), (fuel - 1) as nat) {
            None => None,
            Some(p) => match sp_array_tail(s, sp_ws(s, p.1), (fuel - 1) as nat) {
                None => None,
                Some(q) => Some((seq![p.0] + q.0, q.1)),
            },
        }
    } else {
        None
    }
}

/// The members of the object whose opening brace stands before `i`, and the
/// position past its closing brace; `i` is the first non-whitespace
/// position inside it.
pub open spec fn sp_members(s: Seq<char>, i: int, fuel: nat) -> Option<
    (Seq<(Seq<char>, JsonModel)>, int),
>
    decreases fuel,
{
    if fuel == 0 {
        None
    } else if !(0 <= i && i < s.len()) {
        None
    } else if s[i] == '}' {
        Some((Seq::empty(), i + 1))
    } else if s[i] == '"' {
        match sp_string_body(s, i + 1) {
            None => None,
            Some(p) => sp_member_value(s, sp_ws(s, p.1), (fuel - 1) as nat, p.0),
        }
    } else {
        None
    }
}

/// The members from the one whose key is in hand on; `i` is the first
/// non-whitespace position after the key, expected to hold the colon.
pub open spec fn sp_member_value(s: Seq<char>, i: int, fuel: nat, key: Seq<char>) -> Option<
    (Seq<(Seq<char>, JsonModel)>, int),
>
    decreases fuel,
{
    if fuel == 0 {
        None
    } else if !(0 <= i && i < s.len() && s[i] == ':') {
        None
    } else {
        match sp_value(s, sp_ws(s, i + 1), (fuel - 1) as nat) {
            None => None,
            Some(p) => match sp_members_tail(s, sp_ws(s, p.1), (fuel - 1) as nat) {
                None => None,
                Some(q) => Some((seq![(key, p.0)] + q.0, q.1)),
            },
        }
    }
}

/// The remaining members of an object once one member has been read; `i` is
/// the first non-whitespace position after that member.
pub open spec fn sp_members_tail(s: Seq<char>, i: int, fuel: nat) -> Option<
    (Seq<(Seq<char>, JsonModel)>, int),
>
    decreases fuel,
{
    if fuel == 0 {
        None
    } else if !(0 <= i && i < s.len()) {
        None
    } else if s[i] == '}' {
        Some((Seq::empty(), i + 1))
    } else if s[i] == ',' {
        let k = sp_ws(s, i + 1);
        if k < s.len() && s[k] == '"' {
            match sp_string_body(s, k + 1) {
                None => None,
                Some(p) => sp_member_value(s, sp_ws(s, p.1), (fuel - 1) as nat, p.0),
            }
        } else {
            None
        }
    } else {
        None
    }
}

/// The fuel that the document scan starts with: ample for any nesting the
/// text could hold.
pub open spec fn spec_json_fuel(s: Seq<char>) -> nat {
    (2 * s.len() + 2) as nat
}

/// The one JSON value that the text holds, surrounded by whitespace at
/// most, if the text is exactly that.
pub open spec fn json_value_of(s: Seq<char>) -> Option<JsonModel> {
    match sp_value(s, sp_ws(s, 0), spec_json_fuel(s)) {
        Some(p) => if sp_ws(s, p.1) == s.len() {
            Some(p.0)
        } else {
            None
        },
        None => None,
    }
}

/// Advances past whitespace.
fn skip_ws(v: &Vec<char>, i: usize) -> (r: usize)
    requires
        i <= v@.len(),
    ensures
        r as int == sp_ws(v@, i as int),
        i <= r <= v@.len(),
{
    let mut k = i;
    while k < v.len() && is_ws_char(v[k])
        invariant
            i <= k <= v@.len(),
            sp_ws(v@, i as int) == sp_ws(v@, k as int),
        decreases v@.len() - k,
    {
        k = k + 1;
    }
    k
}

/// A decimal digit test matching `is_digit`.
pub(crate) fn is_digit_char(c: char) -> (b: bool)
    ensures
        b == is_digit(c),
{
    let n = c as u32;
    48 <= n && n <= 57
}

/// Advances past decimal digits.
fn skip_digits(v: &Vec<char>, i: usize) -> (r: usize)
    requires
        i <= v@.len(),
    ensures
        r as int == sp_digits(v@, i as int),
        i <= r <= v@.len(),
{
    let mut k = i;
    while k < v.len() && is_digit_char(v[k])
        invariant
            i <= k <= v@.len(),
            sp_digits(v@, i as int) == sp_digits(v@, k as int),
        decreases v@.len() - k,
    {
        k = k + 1;
    }
    k
}

/// Reads the number token starting at `i`, yielding its end.
fn scan_number(v: &Vec<char>, i: usize) -> (r: Option<usize>)
    requires
        i <= v@.len(),
    ensures
        match r {
            Some(j) => sp_number_end(v@, i as int) == Some(j as int) && i <= j <= v@.len(),
            None => sp_number_end(v@, i as int) is None,
        },
{
    let j0 = if i < v.len() && v[i] == '-' {
        i + 1
    } else {
        i
    };
    if !(j0 < v.len() && is_digit_char(v[j0])) {
        return None;
    }
    let j1 = if v[j0] == '0' {
        j0 + 1
    } else {
        skip_digits(v, j0)
    };
    let j2 = if j1 < v.len() && v[j1] == '.' {
        let k = skip_digits(v, j1 + 1);
        if k == j1 + 1 {
            return None;
        }
        k
    } else {
        j1
    };
    if j2 < v.len() && (v[j2] == 'e' || v[j2] == 'E') {
        let m = if j2 + 1 < v.len() && (v[j2 + 1] == '+' || v[j2 + 1] == '-') {
            j2 + 2
        } else {
            j2 + 1
        };
        let k = skip_digits(v, m);
        if k == m {
            return None;
        }
        Some(k)
    } else {
        Some(j2)
    }
}

/// The value of one hexadecimal digit, matching `sp_hex`.
fn hex_digit(c: char) -> (r: Option<u32>)
    ensures
        r == sp_hex(c),
{
    let n = c as u32;
    if 48 <= n && n <= 57 {
        Some(n - 48)
    } else if 97 <= n && n <= 102 {
        Some(n - 87)
    } else if 65 <= n && n <= 70 {
        Some(n - 55)
    } else {
        None
    }
}

/// Reads the four hexadecimal digits at `i`, matching `sp_hex4`.
fn hex4(v: &Vec<char>, i: usize) -> (r: Option<u32>)
    requires
        i <= v@.len(),
    ensures
        r == sp_hex4(v@, i as int),
{
    if v.len() - i < 4 {
        return None;
    }
    let a = hex_digit(v[i]);
    let b = hex_digit(v[i + 1]);
    let c = hex_digit(v[i + 2]);
    let d = hex_digit(v[i + 3]);
    match (a, b, c, d) {
        (Some(x), Some(y), Some(z), Some(w)) => Some(x * 4096 + y * 256 + z * 16 + w),
        _ => None,
    }
}

/// Relies on char::from_u32: a scalar value outside the surrogate range
/// comes back as exactly that character, and nothing else does.
#[verifier::external_body]
fn char_from_u32(n: u32) -> (r: Option<char>)
    ensures
        r matches Some(c) ==> c == n as char,
        r is Some <==> (n < 0xD800 || (0xE000 <= n && n < 0x110000)),
{
    char::from_u32(n)
}

/// Reads a string body starting at `i` (just past the opening quote),
/// yielding the decoded characters and the position past the closing quote.
fn scan_string_body(v: &Vec<char>, i: usize) -> (r: Option<(Vec<char>, usize)>)
    requires
        i <= v@.len(),
    ensures
        match r {
            Some(p) => sp_string_body(v@, i as int) == Some((p.0@, p.1 as int)) && i < p.1
                <= v@.len(),
            None => sp_string_body(v@, i as int) is None,
        },
    decreases v@.len() - i,
{
    if i >= v.len() {
        return None;
    }
    let c = v[i];
    if c == '"' {
        let out: Vec<char> = Vec::new();
        proof {
            assert(out@ =~= Seq::<char>::empty());
        }
        return Some((out, i + 1));
    }
    if c == '\\' {
        if v.len() - i < 2 {
            return None;
        }
        let e = v[i + 1];
        if e == 'u' {
            match hex4(v, i + 2) {
                None => None,
                Some(n) => {
                    if 0xD800 <= n && n < 0xDC00 {
                        if v.len() - i >= 12 && v[i + 6] == '\\' && v[i + 7] == 'u' {
                            match hex4(v, i + 8) {
                                None => None,
                                Some(lo) => {
                                    if 0xDC00 <= lo && lo < 0xE000 {
                                        let scalar = 0x10000 + (n - 0xD800) * 0x400 + (lo - 0xDC00);
                                        match char_from_u32(scalar) {
                                            None => {
                                                proof {
                                                    assert(false);
                                                }
                                                None
                                            },
                                            Some(ch) => match scan_string_body(v, i + 12) {
                                                None => None,
                                                Some(p) => {
                                                    let mut rest = p.0;
                                                    let ghost old_rest = rest@;
                                                    rest.insert(0, ch);
                                                    proof {
                                                        assert(rest@ =~= seq![ch] + old_rest);
                                                    }
                                                    Some((rest, p.1))
                                                },
                                            },
                                        }
                                    } else {
                                        None
                                    }
                                },
                            }
                        } else {
                            None
                        }
                    } else if 0xDC00 <= n && n < 0xE000 {
                        None
                    } else {
                        match char_from_u32(n) {
                            None => {
                                proof {
                                    assert(false);
                                }
                                None
                            },
                            Some(ch) => match scan_string_body(v, i + 6) {
                                None => None,
                                Some(p) => {
                                    let mut rest = p.0;
                                    let ghost old_rest = rest@;
                                    rest.insert(0, ch);
                                    proof {
                                        assert(rest@ =~= seq![ch] + old_rest);
                                    }
                                    Some((rest, p.1))
                                },
                            },
                        }
                    }
                },
            }
        } else {
            let dec: Option<char> = if e == '"' {
                Some('"')
            } else if e == '\\' {
                Some('\\')
            } else if e == '/' {
                Some('/')
            } else if e == 'b' {
                Some('\u{8}')
            } else if e == 'f' {
                Some('\u{c}')
            } else if e == 'n' {
                Some('\n')
            } else if e == 'r' {
                Some('\r')
            } else if e == 't' {
                Some('\t')
            } else {
                None
            };
            proof {
                assert(dec == sp_escape(e));
            }
            match dec {
                None => None,
                Some(ch) => match scan_string_body(v, i + 2) {
                    None => None,
                    Some(p) => {
                        let mut rest = p.0;
                        let ghost old_rest = rest@;
                        rest.insert(0, ch);
                        proof {
                            assert(rest@ =~= seq![ch] + old_rest);
                        }
                        Some((rest, p.1))
                    },
                },
            }
        }
    } else if (c as u32) < 32 {
        None
    } else {
        match scan_string_body(v, i + 1) {
            None => None,
            Some(p) => {
                let mut rest = p.0;
                let ghost old_rest = rest@;
                rest.insert(0, c);
                proof {
                    assert(rest@ =~= seq![c] + old_rest);
                }
                Some((rest, p.1))
            },
        }
    }
}

/// Reads the value starting at `i`, yielding it and its end position.
fn parse_value(v: &Vec<char>, i: usize, fuel: u128) -> (r: Option<(JsonValue, usize)>)
    requires
        i <= v@.len(),
    ensures
        match r {
            Some(p) => sp_value(v@, i as int, fuel as nat) == Some((model_of(p.0), p.1 as int))
                && p.1 <= v@.len(),
            None => sp_value(v@, i as int, fuel as nat) is None,
        },
    decreases fuel,
{
    if fuel == 0 {
        return None;
    }
    if i >= v.len() {
        return None;
    }
    let c = v[i];
    if c == 'n' {
        if v.len() - i >= 4 && v[i + 1] == 'u' && v[i + 2] == 'l' && v[i + 3] == 'l' {
            Some((JsonValue::Null, i + 4))
        } else {
            None
        }
    } else if c == 't' {
        if v.len() - i >= 4 && v[i + 1] == 'r' && v[i + 2] == 'u' && v[i + 3] == 'e' {
            Some((JsonValue::Bool(true), i + 4))
        } else {
            None
        }
    } else if c == 'f' {
        if v.len() - i >= 5 && v[i + 1] == 'a' && v[i + 2] == 'l' && v[i + 3] == 's' && v[i + 4]
            == 'e' {
            Some((JsonValue::Bool(false), i + 5))
        } else {
            None
        }
    } else if c == '"' {
        match scan_string_body(v, i + 1) {
            None => None,
            Some(p) => Some((JsonValue::Text(chars_to_string(&p.0)), p.1)),
        }
    } else if c == '[' {
        let k = skip_ws(v, i + 1);
        match parse_array_items(v, k, fuel - 1) {
            None => None,
            Some(p) => Some((JsonValue::Array(p.0), p.1)),
        }
    } else if c == '{' {
        let k = skip_ws(v, i + 1);
        match parse_members(v, k, fuel - 1) {
            None => None,
            Some(p) => Some((JsonValue::Object(p.0), p.1)),
        }
    } else {
        match scan_number(v, i) {
            None => None,
            Some(j) => {
                let tok = copy_range(v, i, j);
                Some((JsonValue::Number(chars_to_string(&tok)), j))
            },
        }
    }
}

/// Reads the items of an array from its first non-whitespace position.
fn parse_array_items(v: &Vec<char>, i: usize, fuel: u128) -> (r: Option<(Vec<JsonValue>, usize)>)
    requires
        i <= v@.len(),
    ensures
        match r {
            Some(p) => {
                let t = sp_array_items(v@, i as int, fuel as nat);
                &&& t is Some
                &&& model_seq(p.0@) == t.unwrap().0
                &&& p.1 as int == t.unwrap().1
                &&& p.1 <= v@.len()
            },
            None => sp_array_items(v@, i as int, fuel as nat) is None,
        },
    decreases fuel,
{
    if fuel == 0 {
        return None;
    }
    if i >= v.len() {
        return None;
    }
    if v[i] == ']' {
        let out: Vec<JsonValue> = Vec::new();
        proof {
            assert(model_seq(out@) =~= Seq::<JsonModel>::empty());
        }
        return Some((out, i + 1));
    }
    match parse_value(v, i, fuel - 1) {
        None => None,
        Some(p) => {
            let ghost first_model = model_of(p.0);
            let mut items: Vec<JsonValue> = Vec::new();
            items.push(p.0);
            proof {
                assert(model_seq(items@) =~= seq![first_model]);
            }
            let k = skip_ws(v, p.1);
            match parse_array_tail(v, k, fuel - 1, items) {
                None => None,
                Some(q) => {
                    proof {
                        let t = sp_array_tail(v@, k as int, (fuel - 1) as nat);
                        assert(seq![first_model] + t.unwrap().0 == model_seq(q.0@));
                    }
                    Some(q)
                },
            }
        },
    }
}

/// Reads the rest of an array once one item is in hand; the items read so
/// far ride along and come back extended with the rest.
fn parse_array_tail(v: &Vec<char>, i: usize, fuel: u128, items: Vec<JsonValue>) -> (r: Option<
    (Vec<JsonValue>, usize),
>)
    requires
        i <= v@.len(),
    ensures
        match r {
            Some(p) => {
                let t = sp_array_tail(v@, i as int, fuel as nat);
                &&& t is Some
                &&& model_seq(p.0@) == model_seq(items@) + t.unwrap().0
                &&& p.1 as int == t.unwrap().1
                &&& p.1 <= v@.len()
            },
            None => sp_array_tail(v@, i as int, fuel as nat) is None,
        },
    decreases fuel,
{
    if fuel == 0 {
        return None;
    }
    if i >= v.len() {
        return None;
    }
    if v[i] == ']' {
        proof {
            assert(model_seq(items@) + Seq::<JsonModel>::empty() =~= model_seq(items@));
        }
        return Some((items, i + 1));
    }
    if v[i] == ',' {
        let k = skip_ws(v, i + 1);
        match parse_value(v, k, fuel - 1) {
            None => None,
            Some(p) => {
                let ghost acc_models = model_seq(items@);
                let ghost next_model = model_of(p.0);
                let mut items2 = items;
                items2.push(p.0);
                proof {
                    assert(model_seq(items2@) =~= acc_models.push(next_model));
                }
                let k2 = skip_ws(v, p.1);
                match parse_array_tail(v, k2, fuel - 1, items2) {
                    None => None,
                    Some(q) => {
                        proof {
                            let t = sp_array_tail(v@, k2 as int, (fuel - 1) as nat);
                            assert(acc_models.push(next_model) + t.unwrap().0 =~= acc_models + (seq![
                                next_model,
                            ] + t.unwrap().0));
                        }
                        Some(q)
                    },
                }
            },
        }
    } else {
        None
    }
}

/// Reads the members of an object from its first non-whitespace position.
fn parse_members(v: &Vec<char>, i: usize, fuel: u128) -> (r: Option<
    (Vec<(String, JsonValue)>, usize),
>)
    requires
        i <= v@.len(),
    ensures
        match r {
            Some(p) => {
                let t = sp_members(v@, i as int, fuel as nat);
                &&& t is Some
                &&& member_models(p.0@) == t.unwrap().0
                &&& p.1 as int == t.unwrap().1
                &&& p.1 <= v@.len()
            },
            None => sp_members(v@, i as int, fuel as nat) is None,
        },
    decreases fuel,
{
    if fuel == 0 {
        return None;
    }
    if i >= v.len() {
        return None;
    }
    if v[i] == '}' {
        let out: Vec<(String, JsonValue)> = Vec::new();
        proof {
            assert(member_models(out@) =~= Seq::<(Seq<char>, JsonModel)>::empty());
        }
        return Some((out, i + 1));
    }
    if v[i] == '"' {
        match scan_string_body(v, i + 1) {
            None => None,
            Some(p) => {
                let key = chars_to_string(&p.0);
                let k = skip_ws(v, p.1);
                let empty: Vec<(String, JsonValue)> = Vec::new();
                proof {
                    assert(member_models(empty@) =~= Seq::<(Seq<char>, JsonModel)>::empty());
                }
                match parse_member_value(v, k, fuel - 1, key, empty) {
                    None => None,
                    Some(q) => {
                        proof {
                            let t = sp_member_value(v@, k as int, (fuel - 1) as nat, p.0@);
                            assert(Seq::<(Seq<char>, JsonModel)>::empty() + t.unwrap().0
                                =~= t.unwrap().0);
                        }
                        Some(q)
                    },
                }
            },
        }
    } else {
        None
    }
}

/// Reads the colon and value of a member whose key is in hand, then the rest
/// of the object; the members read so far ride along and come back extended.
fn parse_member_value(
    v: &Vec<char>,
    i: usize,
    fuel: u128,
    key: String,
    members: Vec<(String, JsonValue)>,
) -> (r: Option<(Vec<(String, JsonValue)>, usize)>)
    requires
        i <= v@.len(),
    ensures
        match r {
            Some(p) => {
                let t = sp_member_value(v@, i as int, fuel as nat, key@);
                &&& t is Some
                &&& member_models(p.0@) == member_models(members@) + t.unwrap().0
                &&& p.1 as int == t.unwrap().1
                &&& p.1 <= v@.len()
            },
            None => sp_member_value(v@, i as int, fuel as nat, key@) is None,
        },
    decreases fuel,
{
    if fuel == 0 {
        return None;
    }
    if !(i < v.len() && v[i] == ':') {
        return None;
    }
    let k = skip_ws(v, i + 1);
    match parse_value(v, k, fuel - 1) {
        None => None,
        Some(p) => {
            let ghost acc_models = member_models(members@);
            let ghost member_model = (key@, model_of(p.0));
            let mut members2 = members;
            members2.push((key, p.0));
            proof {
                assert(member_models(members2@) =~= acc_models.push(member_model));
            }
            let k2 = skip_ws(v, p.1);
            match parse_members_tail(v, k2, fuel - 1, members2) {
                None => None,
                Some(q) => {
                    proof {
                        let t = sp_members_tail(v@, k2 as int, (fuel - 1) as nat);
                        assert(acc_models.push(member_model) + t.unwrap().0 =~= acc_models + (seq![
                            member_model,
                        ] + t.unwrap().0));
                    }
                    Some(q)
                },
            }
        },
    }
}

/// Reads the rest of an object once one member is in hand; the members read
/// so far ride along and come back extended with the rest.
fn parse_members_tail(
    v: &Vec<char>,
    i: usize,
    fuel: u128,
    members: Vec<(String, JsonValue)>,
) -> (r: Option<(Vec<(String, JsonValue)>, usize)>)
    requires
        i <= v@.len(),
    ensures
        match r {
            Some(p) => {
                let t = sp_members_tail(v@, i as int, fuel as nat);
                &&& t is Some
                &&& member_models(p.0@) == member_models(members@) + t.unwrap().0
                &&& p.1 as int == t.unwrap().1
                &&& p.1 <= v@.len()
            },
            None => sp_members_tail(v@, i as int, fuel as nat) is None,
        },
    decreases fuel,
{
    if fuel == 0 {
        return None;
    }
    if i >= v.len() {
        return None;
    }
    if v[i] == '}' {
        proof {
            assert(member_models(members@) + Seq::<(Seq<char>, JsonModel)>::empty()
                =~= member_models(members@));
        }
        return Some((members, i + 1));
    }
    if v[i] == ',' {
        let k = skip_ws(v, i + 1);
        if k < v.len() && v[k] == '"' {
            match scan_string_body(v, k + 1) {
                None => None,
                Some(p) => {
                    let key = chars_to_string(&p.0);
                    let k2 = skip_ws(v, p.1);
                    parse_member_value(v, k2, fuel - 1, key, members)
                },
            }
        } else {
            None
        }
    } else {
        None
    }
}

/// Decides whether the whole text is one valid number token.
pub fn check_number_token(t: &str) -> (b: bool)
    ensures
        b == is_number_token(t@),
{
    let v = str_to_chars(t);
    match scan_number(&v, 0) {
        Some(j) => j == v.len(),
        None => false,
    }
}

/// Parses the whole text as one JSON value. Yields a value exactly when the
/// text is one valid JSON value surrounded by whitespace at most.
pub fn parse_json(text: &str) -> (r: Option<JsonValue>)
    ensures
        match r {
            Some(val) => json_value_of(text@) == Some(model_of(val)),
            None => json_value_of(text@) is None,
        },
{
    let v = str_to_chars(text);
    let fuel: u128 = 2 * (v.len() as u128) + 2;
    let start = skip_ws(&v, 0);
    match parse_value(&v, start, fuel) {
        None => None,
        Some(p) => {
            let k = skip_ws(&v, p.1);
            if k == v.len() {
                Some(p.0)
            } else {
                None
            }
        },
    }
}

} // verus!
