//! A JSON value model and a verified codec for it.
//!
//! Upstream responses and the token cache file are JSON text; this module
//! holds the library's own value type for that data, exact spec-level
//! parsing and printing functions, and executable counterparts proved
//! equal to them. Numbers that are integers in `i64` range are held
//! exactly; any other numeric literal is kept as its raw text.

use vstd::prelude::*;

verus! {

/// A JSON value as executable data. Object members keep document order;
/// duplicate keys are kept, and lookups take the first occurrence.
pub enum Json {
    Null,
    Bool(bool),
    /// A numeric literal that is an integer in `i64` range.
    Int(i64),
    /// Any other numeric literal, kept as its raw text.
    Num(String),
    Str(String),
    Arr(Vec<Json>),
    Obj(Vec<(String, Json)>),
}

/// The mathematical shape of a JSON value, used in contracts.
#[verifier::ext_equal]
pub enum JsonModel {
    Null,
    Bool(bool),
    Int(int),
    Num(Seq<char>),
    Str(Seq<char>),
    Arr(Seq<JsonModel>),
    Obj(Seq<(Seq<char>, JsonModel)>),
}

impl View for Json {
    type V = JsonModel;

    open spec fn view(&self) -> JsonModel
        decreases self,
    {
        match self {
            Json::Null => JsonModel::Null,
            Json::Bool(b) => JsonModel::Bool(*b),
            Json::Int(n) => JsonModel::Int(*n as int),
            Json::Num(s) => JsonModel::Num(s@),
            Json::Str(s) => JsonModel::Str(s@),
            Json::Arr(a) => JsonModel::Arr(spec_elems_view(a@)),
            Json::Obj(m) => JsonModel::Obj(spec_members_view(m@)),
        }
    }
}

/// The element-wise view of an array's contents.
pub open spec fn spec_elems_view(s: Seq<Json>) -> Seq<JsonModel>
    decreases s,
{
    Seq::new(
        s.len(),
        |i: int|
            if 0 <= i < s.len() {
                s[i]@
            } else {
                JsonModel::Null
            },
    )
}

/// The member-wise view of an object's contents.
pub open spec fn spec_members_view(s: Seq<(String, Json)>) -> Seq<(Seq<char>, JsonModel)>
    decreases s,
{
    Seq::new(
        s.len(),
        |i: int|
            if 0 <= i < s.len() {
                (s[i].0@, s[i].1@)
            } else {
                (Seq::empty(), JsonModel::Null)
            },
    )
}

/// Character-sequence equality of two string slices, without any
/// assumption about their encodings.
pub fn str_eq(a: &str, b: &str) -> (r: bool)
    ensures
        r == (a@ == b@),
{
    let na = a.unicode_len();
    let nb = b.unicode_len();
    if na != nb {
        proof {
            assert(a@ != b@) by {
                if a@ == b@ {
                    assert(a@.len() == b@.len());
                }
            }
        }
        return false;
    }
    for i in 0..na
        invariant
            na == a@.len(),
            na == b@.len(),
            forall|j: int| 0 <= j < i ==> a@[j] == b@[j],
    {
        if a.get_char(i) != b.get_char(i) {
            return false;
        }
    }
    proof {
        assert(a@ =~= b@);
    }
    true
}

/// Relies on `String`'s `FromIterator<char>` implementation: collecting
/// characters yields the string holding exactly those characters in order.
#[verifier::external_body]
pub(crate) fn chars_to_string(v: &Vec<char>) -> (s: String)
    ensures
        s@ == v@,
{
    v.iter().collect()
}

/// The decimal digit character for `d` in `0 ..= 9`.
pub open spec fn spec_digit_char(d: int) -> char {
    ((48 + d) as u8) as char
}

/// The decimal digits of `n`, most significant first, no sign and no
/// leading zero (a single `0` for zero).
pub open spec fn spec_dec_digits(n: nat) -> Seq<char>
    decreases n,
{
    if n < 10 {
        seq![spec_digit_char(n as int)]
    } else {
        spec_dec_digits(n / 10) + seq![spec_digit_char((n % 10) as int)]
    }
}

/// The decimal text of an integer, with a leading `-` when negative.
pub open spec fn spec_int_text(n: int) -> Seq<char> {
    if n < 0 {
        seq!['-'] + spec_dec_digits((-n) as nat)
    } else {
        spec_dec_digits(n as nat)
    }
}

/// The lowercase hexadecimal digit character for `d` in `0 ..= 15`.
pub open spec fn spec_hex_char(d: int) -> char {
    if d < 10 {
        ((48 + d) as u8) as char
    } else {
        ((87 + d) as u8) as char
    }
}

/// How one character is written inside a JSON string: quotes and
/// backslashes get a backslash escape, control characters a `\u00XX`
/// escape, and every other character stands for itself.
pub open spec fn spec_escape_char(c: char) -> Seq<char> {
    if c == '"' {
        seq!['\\', '"']
    } else if c == '\\' {
        seq!['\\', '\\']
    } else if (c as u32) < 32 {
        seq!['\\', 'u', '0', '0', spec_hex_char((c as u32) as int / 16), spec_hex_char(
            (c as u32) as int % 16,
        )]
    } else {
        seq![c]
    }
}

/// The escaped body of a JSON string.
pub open spec fn spec_escape_string(s: Seq<char>) -> Seq<char>
    decreases s.len(),
{
    if s.len() == 0 {
        Seq::empty()
    } else {
        spec_escape_char(s[0]) + spec_escape_string(s.drop_first())
    }
}

/// A JSON string literal: quoted, escaped body.
pub open spec fn spec_string_text(s: Seq<char>) -> Seq<char> {
    seq!['"'] + spec_escape_string(s) + seq!['"']
}

/// The canonical JSON text of a value: no whitespace, members and
/// elements in their stored order.
pub open spec fn spec_json_text(v: JsonModel) -> Seq<char>
    decreases v,
{
    match v {
        JsonModel::Null => seq!['n', 'u', 'l', 'l'],
        JsonModel::Bool(b) => if b {
            seq!['t', 'r', 'u', 'e']
        } else {
            seq!['f', 'a', 'l', 's', 'e']
        },
        JsonModel::Int(n) => spec_int_text(n),
        JsonModel::Num(raw) => raw,
        JsonModel::Str(s) => spec_string_text(s),
        JsonModel::Arr(a) => seq!['['] + spec_elems_text(a) + seq![']'],
        JsonModel::Obj(m) => seq!['{'] + spec_members_text(m) + seq!['}'],
    }
}

/// The comma-separated texts of array elements.
pub open spec fn spec_elems_text(s: Seq<JsonModel>) -> Seq<char>
    decreases s,
{
    if s.len() == 0 {
        Seq::empty()
    } else if s.len() == 1 {
        spec_json_text(s[0])
    } else {
        spec_json_text(s[0]) + seq![','] + spec_elems_text(s.drop_first())
    }
}

/// The comma-separated `"key":value` texts of object members.
pub open spec fn spec_members_text(s: Seq<(Seq<char>, JsonModel)>) -> Seq<char>
    decreases s,
{
    if s.len() == 0 {
        Seq::empty()
    } else if s.len() == 1 {
        spec_string_text(s[0].0) + seq![':'] + spec_json_text(s[0].1)
    } else {
        spec_string_text(s[0].0) + seq![':'] + spec_json_text(s[0].1) + seq![',']
            + spec_members_text(s.drop_first())
    }
}

/// The first value bound to `key` among the members `ms`, if any.
pub open spec fn spec_member_lookup(
    ms: Seq<(Seq<char>, JsonModel)>,
    key: Seq<char>,
) -> Option<JsonModel>
    decreases ms.len(),
{
    if ms.len() == 0 {
        None
    } else if ms[0].0 == key {
        Some(ms[0].1)
    } else {
        spec_member_lookup(ms.drop_first(), key)
    }
}

/// The value bound to `key` if `v` is an object with such a member.
pub open spec fn spec_get(v: JsonModel, key: Seq<char>) -> Option<JsonModel> {
    match v {
        JsonModel::Obj(ms) => spec_member_lookup(ms, key),
        _ => None,
    }
}

/// The element at `i` if `v` is an array long enough.
pub open spec fn spec_index(v: JsonModel, i: int) -> Option<JsonModel> {
    match v {
        JsonModel::Arr(a) => if 0 <= i < a.len() {
            Some(a[i])
        } else {
            None
        },
        _ => None,
    }
}

fn member_lookup<'a>(ms: &'a Vec<(String, Json)>, key: &str) -> (r: Option<&'a Json>)
    ensures
        match r {
            Some(v) => spec_member_lookup(spec_members_view(ms@), key@) == Some(v@),
            None => spec_member_lookup(spec_members_view(ms@), key@) is None,
        },
{
    let ghost full = spec_members_view(ms@);
    proof {
        assert(full.skip(0) =~= full);
    }
    let n = ms.len();
    for k in 0..n
        invariant
            n == ms@.len(),
            full == spec_members_view(ms@),
            spec_member_lookup(full, key@) == spec_member_lookup(full.skip(k as int), key@),
            full.len() == n,
    {
        proof {
            assert(full.skip(k as int)[0] == (ms@[k as int].0@, ms@[k as int].1@));
        }
        if str_eq(ms[k].0.as_str(), key) {
            return Some(&ms[k].1);
        }
        proof {
            assert(full.skip(k as int).drop_first() =~= full.skip(k + 1));
        }
    }
    proof {
        assert(full.skip(n as int) =~= Seq::<(Seq<char>, JsonModel)>::empty());
    }
    None
}

/// JSON whitespace: space, tab, line feed, carriage return.
pub open spec fn spec_is_ws(c: char) -> bool {
    c == ' ' || c == '\t' || c == '\n' || c == '\r'
}

/// The first position at or after `i` holding no whitespace.
pub open spec fn spec_skip_ws(s: Seq<char>, i: int) -> int
    decreases s.len() - i,
{
    if 0 <= i < s.len() && spec_is_ws(s[i]) {
        spec_skip_ws(s, i + 1)
    } else {
        i
    }
}

pub open spec fn spec_is_digit(c: char) -> bool {
    48 <= c as u32 <= 57
}

pub open spec fn spec_digit_val(c: char) -> int {
    c as u32 - 48
}

/// The first position at or after `i` holding no decimal digit.
pub open spec fn spec_end_digits(s: Seq<char>, i: int) -> int
    decreases s.len() - i,
{
    if 0 <= i < s.len() && spec_is_digit(s[i]) {
        spec_end_digits(s, i + 1)
    } else {
        i
    }
}

/// The value of the decimal digits `s[lo .. hi]`.
pub open spec fn spec_digits_val(s: Seq<char>, lo: int, hi: int) -> int
    decreases hi - lo,
{
    if lo >= hi {
        0
    } else {
        spec_digits_val(s, lo, hi - 1) * 10 + spec_digit_val(s[hi - 1])
    }
}

pub open spec fn spec_is_hex(c: char) -> bool {
    (48 <= c as u32 <= 57) || (97 <= c as u32 <= 102) || (65 <= c as u32 <= 70)
}

pub open spec fn spec_hex_val(c: char) -> int {
    if 48 <= c as u32 <= 57 {
        c as u32 - 48
    } else if 97 <= c as u32 <= 102 {
        c as u32 - 87
    } else {
        c as u32 - 55
    }
}

/// The value of the four hexadecimal digits at `i`, if they are there.
pub open spec fn sp_hex4(s: Seq<char>, i: int) -> Option<int> {
    if 0 <= i && i + 4 <= s.len() && spec_is_hex(s[i]) && spec_is_hex(s[i + 1]) && spec_is_hex(
        s[i + 2],
    ) && spec_is_hex(s[i + 3]) {
        Some(
            spec_hex_val(s[i]) * 4096 + spec_hex_val(s[i + 1]) * 256 + spec_hex_val(s[i + 2]) * 16
                + spec_hex_val(s[i + 3]),
        )
    } else {
        None
    }
}

/// A `\u` escape starting right after the `u`: four hex digits, or a
/// surrogate pair written as two such escapes.
pub open spec fn sp_unicode(s: Seq<char>, i: int) -> Option<(char, int)> {
    match sp_hex4(s, i) {
        Some(h) => if h < 0xD800 || h >= 0xE000 {
            Some(((h as u32) as char, i + 4))
        } else if h < 0xDC00 {
            if i + 6 <= s.len() && s[i + 4] == '\\' && s[i + 5] == 'u' {
                match sp_hex4(s, i + 6) {
                    Some(l) => if 0xDC00 <= l < 0xE000 {
                        Some((((0x10000 + (h - 0xD800) * 0x400 + (l - 0xDC00)) as u32) as char, i
                            + 10))
                    } else {
                        None
                    },
                    None => None,
                }
            } else {
                None
            }
        } else {
            None
        },
        None => None,
    }
}

/// An escape sequence starting right after the backslash.
pub open spec fn sp_escape(s: Seq<char>, i: int) -> Option<(char, int)> {
    if !(0 <= i < s.len()) {
        None
    } else {
        let c = s[i];
        if c == '"' {
            Some(('"', i + 1))
        } else if c == '\\' {
            Some(('\\', i + 1))
        } else if c == '/' {
            Some(('/', i + 1))
        } else if c == 'b' {
            Some(('\u{8}', i + 1))
        } else if c == 'f' {
            Some(('\u{c}', i + 1))
        } else if c == 'n' {
            Some(('\n', i + 1))
        } else if c == 'r' {
            Some(('\r', i + 1))
        } else if c == 't' {
            Some(('\t', i + 1))
        } else if c == 'u' {
            sp_unicode(s, i + 1)
        } else {
            None
        }
    }
}

/// The body of a string literal starting right after the opening quote:
/// the characters it denotes, and the position after the closing quote.
pub open spec fn sp_string_body(s: Seq<char>, i: int) -> Option<(Seq<char>, int)>
    decreases s.len() - i,
{
    if !(0 <= i < s.len()) {
        None
    } else {
        let c = s[i];
        if c == '"' {
            Some((Seq::empty(), i + 1))
        } else if c == '\\' {
            match sp_escape(s, i + 1) {
                Some((e, j)) => if i + 1 < j && j <= s.len() {
                    match sp_string_body(s, j) {
                        Some((rest, k)) => Some((seq![e] + rest, k)),
                        None => None,
                    }
                } else {
                    None
                },
                None => None,
            }
        } else if (c as u32) < 32 {
            None
        } else {
            match sp_string_body(s, i + 1) {
                Some((rest, k)) => Some((seq![c] + rest, k)),
                None => None,
            }
        }
    }
}

/// A numeric literal starting at `i`: an optional minus, digits, an
/// optional fraction and exponent. A plain integer in `i64` range
/// becomes `Int`; any other literal is kept raw as `Num`. Leading
/// zeros are tolerated.
pub open spec fn sp_number(s: Seq<char>, i: int) -> Option<(JsonModel, int)> {
    let i0 = if 0 <= i < s.len() && s[i] == '-' {
        i + 1
    } else {
        i
    };
    let neg = i0 != i;
    if !(0 <= i0 < s.len() && spec_is_digit(s[i0])) {
        None
    } else {
        let i1 = spec_end_digits(s, i0);
        let frac_ok = i1 < s.len() && s[i1] == '.' ==> (i1 + 1 < s.len() && spec_is_digit(
            s[i1 + 1],
        ));
        if !frac_ok {
            None
        } else {
            let i2 = if i1 < s.len() && s[i1] == '.' {
                spec_end_digits(s, i1 + 1)
            } else {
                i1
            };
            let has_exp = i2 < s.len() && (s[i2] == 'e' || s[i2] == 'E');
            let i3 = if has_exp && i2 + 1 < s.len() && (s[i2 + 1] == '+' || s[i2 + 1] == '-') {
                i2 + 2
            } else {
                i2 + 1
            };
            if has_exp && !(i3 < s.len() && spec_is_digit(s[i3])) {
                None
            } else {
                let end = if has_exp {
                    spec_end_digits(s, i3)
                } else {
                    i2
                };
                if i2 == i1 && !has_exp {
                    let m = spec_digits_val(s, i0, i1);
                    if neg && m <= 0x8000000000000000 {
                        Some((JsonModel::Int(-m), i1))
                    } else if !neg && m <= 0x7fffffffffffffff {
                        Some((JsonModel::Int(m), i1))
                    } else {
                        Some((JsonModel::Num(s.subrange(i, i1)), i1))
                    }
                } else {
                    Some((JsonModel::Num(s.subrange(i, end)), end))
                }
            }
        }
    }
}

/// A JSON value starting at or after `i`, leading whitespace skipped:
/// the value and the position right after it.
pub open spec fn sp_value(s: Seq<char>, i: int) -> Option<(JsonModel, int)>
    decreases s.len() - i, 1int,
{
    let j = spec_skip_ws(s, i);
    if !(i <= j && j < s.len()) {
        None
    } else {
        let c = s[j];
        if c == 'n' {
            if j + 4 <= s.len() && s[j + 1] == 'u' && s[j + 2] == 'l' && s[j + 3] == 'l' {
                Some((JsonModel::Null, j + 4))
            } else {
                None
            }
        } else if c == 't' {
            if j + 4 <= s.len() && s[j + 1] == 'r' && s[j + 2] == 'u' && s[j + 3] == 'e' {
                Some((JsonModel::Bool(true), j + 4))
            } else {
                None
            }
        } else if c == 'f' {
            if j + 5 <= s.len() && s[j + 1] == 'a' && s[j + 2] == 'l' && s[j + 3] == 's' && s[j + 4]
                == 'e' {
                Some((JsonModel::Bool(false), j + 5))
            } else {
                None
            }
        } else if c == '"' {
            match sp_string_body(s, j + 1) {
                Some((cs, k)) => Some((JsonModel::Str(cs), k)),
                None => None,
            }
        } else if c == '-' || spec_is_digit(c) {
            sp_number(s, j)
        } else if c == '[' {
            match sp_arr(s, j + 1) {
                Some((vs, k)) => Some((JsonModel::Arr(vs), k)),
                None => None,
            }
        } else if c == '{' {
            match sp_obj(s, j + 1) {
                Some((ms, k)) => Some((JsonModel::Obj(ms), k)),
                None => None,
            }
        } else {
            None
        }
    }
}

/// Array contents starting right after `[`: the elements and the
/// position right after `]`.
pub open spec fn sp_arr(s: Seq<char>, i: int) -> Option<(Seq<JsonModel>, int)>
    decreases s.len() - i, 2int,
{
    let j = spec_skip_ws(s, i);
    if !(i <= j && j < s.len()) {
        None
    } else if s[j] == ']' {
        Some((Seq::empty(), j + 1))
    } else {
        match sp_value(s, j) {
            Some((v, k)) => if j < k && k <= s.len() {
                match sp_arr_tail(s, k) {
                    Some((vs, e)) => Some((seq![v] + vs, e)),
                    None => None,
                }
            } else {
                None
            },
            None => None,
        }
    }
}

/// What follows an array element: `]`, or `,` and further elements.
pub open spec fn sp_arr_tail(s: Seq<char>, i: int) -> Option<(Seq<JsonModel>, int)>
    decreases s.len() - i, 0int,
{
    let j = spec_skip_ws(s, i);
    if !(i <= j && j < s.len()) {
        None
    } else if s[j] == ']' {
        Some((Seq::empty(), j + 1))
    } else if s[j] == ',' {
        match sp_value(s, j + 1) {
            Some((v, k)) => if j + 1 < k && k <= s.len() {
                match sp_arr_tail(s, k) {
                    Some((vs, e)) => Some((seq![v] + vs, e)),
                    None => None,
                }
            } else {
                None
            },
            None => None,
        }
    } else {
        None
    }
}

/// One `"key": value` member starting at or after `i`.
pub open spec fn sp_member(s: Seq<char>, i: int) -> Option<((Seq<char>, JsonModel), int)>
    decreases s.len() - i, 1int,
{
    let j = spec_skip_ws(s, i);
    if !(i <= j && j < s.len() && s[j] == '"') {
        None
    } else {
        match sp_string_body(s, j + 1) {
            Some((key, k)) => if j + 1 < k && k <= s.len() {
                let j2 = spec_skip_ws(s, k);
                if k <= j2 && j2 < s.len() && s[j2] == ':' {
                    match sp_value(s, j2 + 1) {
                        Some((v, e)) => Some(((key, v), e)),
                        None => None,
                    }
                } else {
                    None
                }
            } else {
                None
            },
            None => None,
        }
    }
}

/// Object contents starting right after `{`: the members and the
/// position right after `}`.
pub open spec fn sp_obj(s: Seq<char>, i: int) -> Option<(Seq<(Seq<char>, JsonModel)>, int)>
    decreases s.len() - i, 2int,
{
    let j = spec_skip_ws(s, i);
    if !(i <= j && j < s.len()) {
        None
    } else if s[j] == '}' {
        Some((Seq::empty(), j + 1))
    } else {
        match sp_member(s, j) {
            Some((m, k)) => if j < k && k <= s.len() {
                match sp_obj_tail(s, k) {
                    Some((ms, e)) => Some((seq![m] + ms, e)),
                    None => None,
                }
            } else {
                None
            },
            None => None,
        }
    }
}

/// What follows an object member: `}`, or `,` and further members.
pub open spec fn sp_obj_tail(s: Seq<char>, i: int) -> Option<(Seq<(Seq<char>, JsonModel)>, int)>
    decreases s.len() - i, 0int,
{
    let j = spec_skip_ws(s, i);
    if !(i <= j && j < s.len()) {
        None
    } else if s[j] == '}' {
        Some((Seq::empty(), j + 1))
    } else if s[j] == ',' {
        match sp_member(s, j + 1) {
            Some((m, k)) => if j + 1 < k && k <= s.len() {
                match sp_obj_tail(s, k) {
                    Some((ms, e)) => Some((seq![m] + ms, e)),
                    None => None,
                }
            } else {
                None
            },
            None => None,
        }
    } else {
        None
    }
}

/// The parse of a complete JSON document: one value, surrounded only
/// by whitespace.
pub open spec fn spec_parse_json(s: Seq<char>) -> Option<JsonModel> {
    match sp_value(s, 0) {
        Some((v, j)) => if spec_skip_ws(s, j) == s.len() {
            Some(v)
        } else {
            None
        },
        None => None,
    }
}

/// Relies on `char::from_u32`: `Some` exactly on Unicode scalar values
/// (below the surrogate range, or between it and the maximum scalar),
/// returning the character with that value.
#[verifier::external_body]
fn char_from_u32(n: u32) -> (r: Option<char>)
    ensures
        r matches Some(c) ==> c == n as char && c as u32 == n,
        (r is Some) <==> (n < 0xD800 || (0xE000 <= n && n <= 0x10FFFF)),
{
    char::from_u32(n)
}

/// The characters of `s` as a vector.
fn str_chars(s: &str) -> (v: Vec<char>)
    ensures
        v@ == s@,
{
    let n = s.unicode_len();
    let mut v: Vec<char> = Vec::new();
    for i in 0..n
        invariant
            n == s@.len(),
            v@ == s@.take(i as int),
    {
        v.push(s.get_char(i));
        proof {
            assert(s@.take(i + 1) =~= s@.take(i as int).push(s@[i as int]));
        }
    }
    proof {
        assert(s@.take(n as int) =~= s@);
    }
    v
}

/// The string holding `s[lo .. hi]`.
fn copy_string(s: &Vec<char>, lo: usize, hi: usize) -> (r: String)
    requires
        lo <= hi <= s@.len(),
    ensures
        r@ == s@.subrange(lo as int, hi as int),
{
    let mut v: Vec<char> = Vec::new();
    proof {
        assert(s@.subrange(lo as int, lo as int) =~= Seq::<char>::empty());
    }
    for k in lo..hi
        invariant
            lo <= k <= hi <= s@.len(),
            v@ == s@.subrange(lo as int, k as int),
    {
        v.push(s[k]);
        proof {
            assert(s@.subrange(lo as int, k + 1) =~= s@.subrange(lo as int, k as int).push(
                s@[k as int],
            ));
        }
    }
    chars_to_string(&v)
}

fn p_skip_ws(s: &Vec<char>, i: usize) -> (j: usize)
    requires
        i <= s@.len(),
    ensures
        i <= j <= s@.len(),
        j as int == spec_skip_ws(s@, i as int),
{
    let mut k = i;
    loop
        invariant
            i <= k <= s@.len(),
            spec_skip_ws(s@, i as int) == spec_skip_ws(s@, k as int),
        ensures
            i <= k <= s@.len(),
            k as int == spec_skip_ws(s@, i as int),
        decreases s@.len() - k,
    {
        if k == s.len() {
            break;
        }
        let c = s[k];
        if c == ' ' || c == '\t' || c == '\n' || c == '\r' {
            k = k + 1;
        } else {
            break;
        }
    }
    k
}

fn p_end_digits(s: &Vec<char>, i: usize) -> (j: usize)
    requires
        i <= s@.len(),
    ensures
        i <= j <= s@.len(),
        j as int == spec_end_digits(s@, i as int),
{
    let mut k = i;
    loop
        invariant
            i <= k <= s@.len(),
            spec_end_digits(s@, i as int) == spec_end_digits(s@, k as int),
        ensures
            i <= k <= s@.len(),
            k as int == spec_end_digits(s@, i as int),
        decreases s@.len() - k,
    {
        if k == s.len() {
            break;
        }
        let c = s[k];
        if 48 <= c as u32 && c as u32 <= 57 {
            k = k + 1;
        } else {
            break;
        }
    }
    k
}

proof fn lemma_end_digits(s: Seq<char>, i: int)
    requires
        0 <= i <= s.len(),
    ensures
        i <= spec_end_digits(s, i) <= s.len(),
        forall|t: int| i <= t < spec_end_digits(s, i) ==> spec_is_digit(#[trigger] s[t]),
        i < s.len() && spec_is_digit(s[i]) ==> spec_end_digits(s, i) > i,
    decreases s.len() - i,
{
    if i < s.len() && spec_is_digit(s[i]) {
        lemma_end_digits(s, i + 1);
    }
}

proof fn lemma_digits_val_nonneg(s: Seq<char>, lo: int, hi: int)
    requires
        forall|t: int| lo <= t < hi ==> spec_is_digit(#[trigger] s[t]),
    ensures
        spec_digits_val(s, lo, hi) >= 0,
    decreases hi - lo,
{
    if lo < hi {
        lemma_digits_val_nonneg(s, lo, hi - 1);
    }
}

proof fn lemma_digits_val_mono(s: Seq<char>, lo: int, mid: int, hi: int)
    requires
        lo <= mid <= hi,
        forall|t: int| lo <= t < hi ==> spec_is_digit(#[trigger] s[t]),
    ensures
        spec_digits_val(s, lo, hi) >= spec_digits_val(s, lo, mid),
    decreases hi - mid,
{
    if mid < hi {
        lemma_digits_val_mono(s, lo, mid, hi - 1);
        lemma_digits_val_nonneg(s, lo, hi - 1);
    }
}

fn hex_val(c: char) -> (r: Option<u8>)
    ensures
        match r {
            Some(v) => spec_is_hex(c) && v as int == spec_hex_val(c) && v < 16,
            None => !spec_is_hex(c),
        },
{
    let u = c as u32;
    if 48 <= u && u <= 57 {
        Some((u - 48) as u8)
    } else if 97 <= u && u <= 102 {
        Some((u - 87) as u8)
    } else if 65 <= u && u <= 70 {
        Some((u - 55) as u8)
    } else {
        None
    }
}

fn p_hex4(s: &Vec<char>, i: usize) -> (r: Option<u32>)
    requires
        i <= s@.len(),
    ensures
        match r {
            Some(h) => sp_hex4(s@, i as int) == Some(h as int) && h < 0x10000,
            None => sp_hex4(s@, i as int) is None,
        },
{
    if s.len() - i < 4 {
        return None;
    }
    let v0 = hex_val(s[i]);
    let v1 = hex_val(s[i + 1]);
    let v2 = hex_val(s[i + 2]);
    let v3 = hex_val(s[i + 3]);
    match (v0, v1, v2, v3) {
        (Some(a), Some(b), Some(c), Some(d)) => Some(
            (a as u32) * 4096 + (b as u32) * 256 + (c as u32) * 16 + (d as u32),
        ),
        _ => None,
    }
}

fn p_unicode(s: &Vec<char>, i: usize) -> (r: Option<(char, usize)>)
    requires
        i <= s@.len(),
    ensures
        match r {
            Some((c, j)) => sp_unicode(s@, i as int) == Some((c, j as int)) && i < j <= s@.len(),
            None => sp_unicode(s@, i as int) is None,
        },
{
    let n = s.len();
    match p_hex4(s, i) {
        Some(h) => {
            if h < 0xD800 || h >= 0xE000 {
                let c = char_from_u32(h).unwrap();
                Some((c, i + 4))
            } else if h < 0xDC00 {
                if n - i >= 6 && s[i + 4] == '\\' && s[i + 5] == 'u' {
                    match p_hex4(s, i + 6) {
                        Some(l) => {
                            if 0xDC00 <= l && l < 0xE000 {
                                let scalar = 0x10000 + (h - 0xD800) * 0x400 + (l - 0xDC00);
                                let c = char_from_u32(scalar).unwrap();
                                Some((c, i + 10))
                            } else {
                                None
                            }
                        },
                        None => None,
                    }
                } else {
                    None
                }
            } else {
                None
            }
        },
        None => None,
    }
}

fn p_escape(s: &Vec<char>, i: usize) -> (r: Option<(char, usize)>)
    requires
        i <= s@.len(),
    ensures
        match r {
            Some((c, j)) => sp_escape(s@, i as int) == Some((c, j as int)) && i < j <= s@.len(),
            None => sp_escape(s@, i as int) is None,
        },
{
    if i >= s.len() {
        return None;
    }
    let c = s[i];
    if c == '"' {
        Some(('"', i + 1))
    } else if c == '\\' {
        Some(('\\', i + 1))
    } else if c == '/' {
        Some(('/', i + 1))
    } else if c == 'b' {
        Some(('\u{8}', i + 1))
    } else if c == 'f' {
        Some(('\u{c}', i + 1))
    } else if c == 'n' {
        Some(('\n', i + 1))
    } else if c == 'r' {
        Some(('\r', i + 1))
    } else if c == 't' {
        Some(('\t', i + 1))
    } else if c == 'u' {
        p_unicode(s, i + 1)
    } else {
        None
    }
}

fn p_string_body(s: &Vec<char>, i: usize) -> (r: Option<(Vec<char>, usize)>)
    requires
        i <= s@.len(),
    ensures
        match r {
            Some((cs, j)) => sp_string_body(s@, i as int) == Some((cs@, j as int)) && i < j
                <= s@.len(),
            None => sp_string_body(s@, i as int) is None,
        },
    decreases s@.len() - i,
{
    if i >= s.len() {
        return None;
    }
    let c = s[i];
    if c == '"' {
        let v: Vec<char> = Vec::new();
        proof {
            assert(v@ =~= Seq::<char>::empty());
        }
        Some((v, i + 1))
    } else if c == '\\' {
        match p_escape(s, i + 1) {
            Some((e, j)) => {
                match p_string_body(s, j) {
                    Some((rest, k)) => {
                        let mut out: Vec<char> = Vec::new();
                        out.push(e);
                        let mut tail = rest;
                        let ghost tail0 = tail@;
                        out.append(&mut tail);
                        proof {
                            assert(out@ =~= seq![e] + tail0);
                        }
                        Some((out, k))
                    },
                    None => None,
                }
            },
            None => None,
        }
    } else if (c as u32) < 32 {
        None
    } else {
        match p_string_body(s, i + 1) {
            Some((rest, k)) => {
                let mut out: Vec<char> = Vec::new();
                out.push(c);
                let mut tail = rest;
                let ghost tail0 = tail@;
                out.append(&mut tail);
                proof {
                    assert(out@ =~= seq![c] + tail0);
                }
                Some((out, k))
            },
            None => None,
        }
    }
}

fn p_number(s: &Vec<char>, i: usize) -> (r: Option<(Json, usize)>)
    requires
        i <= s@.len(),
    ensures
        match r {
            Some((v, j)) => sp_number(s@, i as int) == Some((v@, j as int)) && i < j <= s@.len(),
            None => sp_number(s@, i as int) is None,
        },
{
    let mut i0 = i;
    if i < s.len() && s[i] == '-' {
        i0 = i + 1;
    }
    let neg = i0 != i;
    if i0 >= s.len() {
        return None;
    }
    let c0 = s[i0];
    if !(48 <= c0 as u32 && c0 as u32 <= 57) {
        return None;
    }
    let i1 = p_end_digits(s, i0);
    proof {
        lemma_end_digits(s@, i0 as int);
    }
    let mut has_frac = false;
    if i1 < s.len() && s[i1] == '.' {
        if i1 + 1 < s.len() && 48 <= s[i1 + 1] as u32 && s[i1 + 1] as u32 <= 57 {
            has_frac = true;
        } else {
            return None;
        }
    }
    let i2 = if has_frac {
        p_end_digits(s, i1 + 1)
    } else {
        i1
    };
    let has_exp = i2 < s.len() && (s[i2] == 'e' || s[i2] == 'E');
    if has_exp {
        let i3: usize = if i2 + 1 < s.len() && (s[i2 + 1] == '+' || s[i2 + 1] == '-') {
            i2 + 2
        } else {
            i2 + 1
        };
        if i3 >= s.len() || !(48 <= s[i3] as u32 && s[i3] as u32 <= 57) {
            return None;
        }
        let end = p_end_digits(s, i3);
        let raw = copy_string(s, i, end);
        return Some((Json::Num(raw), end));
    }
    if has_frac {
        let raw = copy_string(s, i, i2);
        return Some((Json::Num(raw), i2));
    }
    // a plain integer literal: accumulate its value, stopping once it
    // can no longer be an `i64`
    let mut m: u128 = 0;
    let mut k = i0;
    let mut big = false;
    while k < i1
        invariant_except_break
            i0 <= k <= i1,
            i1 <= s@.len(),
            forall|t: int| i0 <= t < i1 ==> spec_is_digit(#[trigger] s@[t]),
            !big,
            m == spec_digits_val(s@, i0 as int, k as int),
            m <= 0x8000000000000000,
        ensures
            !big ==> k == i1 && m == spec_digits_val(s@, i0 as int, i1 as int) && m
                <= 0x8000000000000000,
            big ==> spec_digits_val(s@, i0 as int, i1 as int) > 0x8000000000000000,
        decreases i1 - k,
    {
        let d = (s[k] as u32) - 48;
        m = m * 10 + d as u128;
        k = k + 1;
        if m > 0x8000000000000000 {
            big = true;
            proof {
                lemma_digits_val_mono(s@, i0 as int, k as int, i1 as int);
            }
            break;
        }
    }
    if neg {
        if !big && m <= 0x8000000000000000 {
            let v: i64 = (-(m as i128)) as i64;
            proof {
                assert(v as int == -(m as int));
            }
            Some((Json::Int(v), i1))
        } else {
            let raw = copy_string(s, i, i1);
            Some((Json::Num(raw), i1))
        }
    } else {
        if !big && m <= 0x7fffffffffffffff {
            Some((Json::Int(m as i64), i1))
        } else {
            let raw = copy_string(s, i, i1);
            Some((Json::Num(raw), i1))
        }
    }
}

fn p_value(s: &Vec<char>, i: usize) -> (r: Option<(Json, usize)>)
    requires
        i <= s@.len(),
    ensures
        match r {
            Some((v, j)) => sp_value(s@, i as int) == Some((v@, j as int)) && i < j <= s@.len(),
            None => sp_value(s@, i as int) is None,
        },
    decreases s@.len() - i, 1int,
{
    let j = p_skip_ws(s, i);
    if j >= s.len() {
        return None;
    }
    let c = s[j];
    if c == 'n' {
        if s.len() - j >= 4 && s[j + 1] == 'u' && s[j + 2] == 'l' && s[j + 3] == 'l' {
            Some((Json::Null, j + 4))
        } else {
            None
        }
    } else if c == 't' {
        if s.len() - j >= 4 && s[j + 1] == 'r' && s[j + 2] == 'u' && s[j + 3] == 'e' {
            Some((Json::Bool(true), j + 4))
        } else {
            None
        }
    } else if c == 'f' {
        if s.len() - j >= 5 && s[j + 1] == 'a' && s[j + 2] == 'l' && s[j + 3] == 's' && s[j + 4]
            == 'e' {
            Some((Json::Bool(false), j + 5))
        } else {
            None
        }
    } else if c == '"' {
        match p_string_body(s, j + 1) {
            Some((cs, k)) => {
                let st = chars_to_string(&cs);
                Some((Json::Str(st), k))
            },
            None => None,
        }
    } else if c == '-' || (48 <= c as u32 && c as u32 <= 57) {
        p_number(s, j)
    } else if c == '[' {
        match p_arr(s, j + 1) {
            Some((vs, k)) => Some((Json::Arr(vs), k)),
            None => None,
        }
    } else if c == '{' {
        match p_obj(s, j + 1) {
            Some((ms, k)) => Some((Json::Obj(ms), k)),
            None => None,
        }
    } else {
        None
    }
}

fn p_arr(s: &Vec<char>, i: usize) -> (r: Option<(Vec<Json>, usize)>)
    requires
        i <= s@.len(),
    ensures
        match r {
            Some((vs, j)) => sp_arr(s@, i as int) == Some((spec_elems_view(vs@), j as int)) && i
                < j <= s@.len(),
            None => sp_arr(s@, i as int) is None,
        },
    decreases s@.len() - i, 2int,
{
    let j = p_skip_ws(s, i);
    if j >= s.len() {
        return None;
    }
    if s[j] == ']' {
        let v: Vec<Json> = Vec::new();
        proof {
            assert(spec_elems_view(v@) =~= Seq::<JsonModel>::empty());
        }
        return Some((v, j + 1));
    }
    match p_value(s, j) {
        Some((v, k)) => {
            match p_arr_tail(s, k) {
                Some((vs, e)) => {
                    let mut out: Vec<Json> = Vec::new();
                    out.push(v);
                    let mut tail = vs;
                    let ghost tail0 = tail@;
                    let ghost v0 = v@;
                    out.append(&mut tail);
                    proof {
                        assert(out@ =~= seq![out@[0]] + tail0);
                        assert(spec_elems_view(out@) =~= seq![v0] + spec_elems_view(tail0));
                    }
                    Some((out, e))
                },
                None => None,
            }
        },
        None => None,
    }
}

fn p_arr_tail(s: &Vec<char>, i: usize) -> (r: Option<(Vec<Json>, usize)>)
    requires
        i <= s@.len(),
    ensures
        match r {
            Some((vs, j)) => sp_arr_tail(s@, i as int) == Some((spec_elems_view(vs@), j as int))
                && i < j <= s@.len(),
            None => sp_arr_tail(s@, i as int) is None,
        },
    decreases s@.len() - i, 0int,
{
    let j = p_skip_ws(s, i);
    if j >= s.len() {
        return None;
    }
    if s[j] == ']' {
        let v: Vec<Json> = Vec::new();
        proof {
            assert(spec_elems_view(v@) =~= Seq::<JsonModel>::empty());
        }
        return Some((v, j + 1));
    }
    if s[j] != ',' {
        return None;
    }
    match p_value(s, j + 1) {
        Some((v, k)) => {
            match p_arr_tail(s, k) {
                Some((vs, e)) => {
                    let mut out: Vec<Json> = Vec::new();
                    out.push(v);
                    let mut tail = vs;
                    let ghost tail0 = tail@;
                    let ghost v0 = v@;
                    out.append(&mut tail);
                    proof {
                        assert(spec_elems_view(out@) =~= seq![v0] + spec_elems_view(tail0));
                    }
                    Some((out, e))
                },
                None => None,
            }
        },
        None => None,
    }
}

fn p_member(s: &Vec<char>, i: usize) -> (r: Option<((String, Json), usize)>)
    requires
        i <= s@.len(),
    ensures
        match r {
            Some((m, j)) => sp_member(s@, i as int) == Some(((m.0@, m.1@), j as int)) && i < j
                <= s@.len(),
            None => sp_member(s@, i as int) is None,
        },
    decreases s@.len() - i, 1int,
{
    let j = p_skip_ws(s, i);
    if j >= s.len() || s[j] != '"' {
        return None;
    }
    match p_string_body(s, j + 1) {
        Some((key, k)) => {
            let j2 = p_skip_ws(s, k);
            if j2 >= s.len() || s[j2] != ':' {
                return None;
            }
            match p_value(s, j2 + 1) {
                Some((v, e)) => {
                    let ks = chars_to_string(&key);
                    Some(((ks, v), e))
                },
                None => None,
            }
        },
        None => None,
    }
}

fn p_obj(s: &Vec<char>, i: usize) -> (r: Option<(Vec<(String, Json)>, usize)>)
    requires
        i <= s@.len(),
    ensures
        match r {
            Some((ms, j)) => sp_obj(s@, i as int) == Some((spec_members_view(ms@), j as int)) && i
                < j <= s@.len(),
            None => sp_obj(s@, i as int) is None,
        },
    decreases s@.len() - i, 2int,
{
    let j = p_skip_ws(s, i);
    if j >= s.len() {
        return None;
    }
    if s[j] == '}' {
        let v: Vec<(String, Json)> = Vec::new();
        proof {
            assert(spec_members_view(v@) =~= Seq::<(Seq<char>, JsonModel)>::empty());
        }
        return Some((v, j + 1));
    }
    match p_member(s, j) {
        Some((m, k)) => {
            match p_obj_tail(s, k) {
                Some((ms, e)) => {
                    let mut out: Vec<(String, Json)> = Vec::new();
                    let ghost m0 = (m.0@, m.1@);
                    out.push(m);
                    let mut tail = ms;
                    let ghost tail0 = tail@;
                    out.append(&mut tail);
                    proof {
                        assert(spec_members_view(out@) =~= seq![m0] + spec_members_view(tail0));
                    }
                    Some((out, e))
                },
                None => None,
            }
        },
        None => None,
    }
}

fn p_obj_tail(s: &Vec<char>, i: usize) -> (r: Option<(Vec<(String, Json)>, usize)>)
    requires
        i <= s@.len(),
    ensures
        match r {
            Some((ms, j)) => sp_obj_tail(s@, i as int) == Some(
                (spec_members_view(ms@), j as int),
            ) && i < j <= s@.len(),
            None => sp_obj_tail(s@, i as int) is None,
        },
    decreases s@.len() - i, 0int,
{
    let j = p_skip_ws(s, i);
    if j >= s.len() {
        return None;
    }
    if s[j] == '}' {
        let v: Vec<(String, Json)> = Vec::new();
        proof {
            assert(spec_members_view(v@) =~= Seq::<(Seq<char>, JsonModel)>::empty());
        }
        return Some((v, j + 1));
    }
    if s[j] != ',' {
        return None;
    }
    match p_member(s, j + 1) {
        Some((m, k)) => {
            match p_obj_tail(s, k) {
                Some((ms, e)) => {
                    let mut out: Vec<(String, Json)> = Vec::new();
                    let ghost m0 = (m.0@, m.1@);
                    out.push(m);
                    let mut tail = ms;
                    let ghost tail0 = tail@;
                    out.append(&mut tail);
                    proof {
                        assert(spec_members_view(out@) =~= seq![m0] + spec_members_view(tail0));
                    }
                    Some((out, e))
                },
                None => None,
            }
        },
        None => None,
    }
}

/// Parses a complete JSON document: exactly the values that
/// `spec_parse_json` accepts, with the same result.
pub fn parse_json(s: &str) -> (r: Option<Json>)
    ensures
        match r {
            Some(v) => spec_parse_json(s@) == Some(v@),
            None => spec_parse_json(s@) is None,
        },
{
    let chars = str_chars(s);
    match p_value(&chars, 0) {
        Some((v, j)) => {
            let k = p_skip_ws(&chars, j);
            if k == chars.len() {
                Some(v)
            } else {
                None
            }
        },
        None => None,
    }
}

proof fn lemma_escape_snoc(s: Seq<char>, c: char)
    ensures
        spec_escape_string(s.push(c)) == spec_escape_string(s) + spec_escape_char(c),
    decreases s.len(),
{
    if s.len() == 0 {
        assert(s.push(c)[0] == c);
        assert(s.push(c).drop_first() =~= Seq::<char>::empty());
        assert(spec_escape_string(s.push(c)) == spec_escape_char(c) + spec_escape_string(
            Seq::<char>::empty(),
        ));
        assert(spec_escape_char(c) + Seq::<char>::empty() =~= spec_escape_string(s)
            + spec_escape_char(c));
    } else {
        lemma_escape_snoc(s.drop_first(), c);
        assert(s.push(c)[0] == s[0]);
        assert(s.push(c).drop_first() =~= s.drop_first().push(c));
        assert(spec_escape_char(s[0]) + (spec_escape_string(s.drop_first()) + spec_escape_char(c))
            =~= (spec_escape_char(s[0]) + spec_escape_string(s.drop_first())) + spec_escape_char(
            c,
        ));
    }
}

proof fn lemma_elems_snoc(s: Seq<JsonModel>, v: JsonModel)
    ensures
        spec_elems_text(s.push(v)) == if s.len() == 0 {
            spec_json_text(v)
        } else {
            spec_elems_text(s) + seq![','] + spec_json_text(v)
        },
    decreases s.len(),
{
    if s.len() == 0 {
        assert(s.push(v)[0] == v);
    } else if s.len() == 1 {
        assert(s.push(v)[0] == s[0]);
        assert(s.push(v).drop_first() =~= seq![v]);
        assert(seq![v][0] == v);
        assert(spec_elems_text(seq![v]) == spec_json_text(v));
    } else {
        lemma_elems_snoc(s.drop_first(), v);
        assert(s.push(v)[0] == s[0]);
        assert(s.push(v).drop_first() =~= s.drop_first().push(v));
        assert(s.drop_first().len() >= 1);
        assert(spec_json_text(s[0]) + seq![','] + (spec_elems_text(s.drop_first()) + seq![',']
            + spec_json_text(v)) =~= (spec_json_text(s[0]) + seq![','] + spec_elems_text(
            s.drop_first(),
        )) + seq![','] + spec_json_text(v));
    }
}

proof fn lemma_members_snoc(s: Seq<(Seq<char>, JsonModel)>, k: Seq<char>, v: JsonModel)
    ensures
        spec_members_text(s.push((k, v))) == if s.len() == 0 {
            spec_string_text(k) + seq![':'] + spec_json_text(v)
        } else {
            spec_members_text(s) + seq![','] + (spec_string_text(k) + seq![':'] + spec_json_text(
                v,
            ))
        },
    decreases s.len(),
{
    if s.len() == 0 {
        assert(s.push((k, v))[0] == (k, v));
    } else if s.len() == 1 {
        assert(s.push((k, v))[0] == s[0]);
        assert(s.push((k, v)).drop_first() =~= seq![(k, v)]);
        assert(seq![(k, v)][0] == (k, v));
        assert(spec_members_text(seq![(k, v)]) == spec_string_text(k) + seq![':'] + spec_json_text(
            v,
        ));
        assert(spec_string_text(s[0].0) + seq![':'] + spec_json_text(s[0].1) + seq![','] + (
        spec_string_text(k) + seq![':'] + spec_json_text(v)) =~= spec_members_text(s) + seq![',']
            + (spec_string_text(k) + seq![':'] + spec_json_text(v)));
    } else {
        lemma_members_snoc(s.drop_first(), k, v);
        assert(s.push((k, v))[0] == s[0]);
        assert(s.push((k, v)).drop_first() =~= s.drop_first().push((k, v)));
        assert(s.drop_first().len() >= 1);
        assert(spec_string_text(s[0].0) + seq![':'] + spec_json_text(s[0].1) + seq![','] + (
        spec_members_text(s.drop_first()) + seq![','] + (spec_string_text(k) + seq![':']
            + spec_json_text(v))) =~= (spec_string_text(s[0].0) + seq![':'] + spec_json_text(
            s[0].1,
        ) + seq![','] + spec_members_text(s.drop_first())) + seq![','] + (spec_string_text(k)
            + seq![':'] + spec_json_text(v)));
    }
}

/// The decimal digit characters of `m`.
fn dec_chars(m: u64) -> (r: Vec<char>)
    ensures
        r@ == spec_dec_digits(m as nat),
    decreases m,
{
    if m < 10 {
        let c = (48 + m as u8) as char;
        let mut v: Vec<char> = Vec::new();
        v.push(c);
        proof {
            assert(v@ =~= seq![spec_digit_char(m as int)]);
        }
        v
    } else {
        let mut v = dec_chars(m / 10);
        let c = (48 + (m % 10) as u8) as char;
        v.push(c);
        proof {
            assert((m / 10) as nat == (m as nat) / 10);
            assert((m % 10) as nat == (m as nat) % 10);
            assert(v@ =~= spec_dec_digits((m as nat) / 10) + seq![
                spec_digit_char(((m as nat) % 10) as int),
            ]);
        }
        v
    }
}

/// The decimal text of `n`, `-` first when negative.
fn int_chars(n: i64) -> (r: Vec<char>)
    ensures
        r@ == spec_int_text(n as int),
{
    if n >= 0 {
        dec_chars(n as u64)
    } else {
        let m: u64 = (-(n as i128)) as u64;
        let mut v: Vec<char> = Vec::new();
        v.push('-');
        let mut d = dec_chars(m);
        v.append(&mut d);
        proof {
            assert(m as nat == (-(n as int)) as nat);
            assert(v@ =~= seq!['-'] + spec_dec_digits((-(n as int)) as nat));
        }
        v
    }
}

/// The decimal text of an unsigned number.
pub fn uint_string(m: u64) -> (r: String)
    ensures
        r@ == spec_dec_digits(m as nat),
{
    let d = dec_chars(m);
    chars_to_string(&d)
}

/// Appends the characters of `s` to `out`.
fn push_str_chars(out: &mut Vec<char>, s: &str)
    ensures
        final(out)@ == old(out)@ + s@,
{
    let n = s.unicode_len();
    for i in 0..n
        invariant
            n == s@.len(),
            out@ == old(out)@ + s@.take(i as int),
    {
        let c = s.get_char(i);
        out.push(c);
        proof {
            assert(s@.take(i + 1) =~= s@.take(i as int).push(s@[i as int]));
            assert(old(out)@ + s@.take(i as int).push(s@[i as int]) =~= (old(out)@ + s@.take(
                i as int,
            )).push(s@[i as int]));
        }
    }
    proof {
        assert(s@.take(n as int) =~= s@);
    }
}

/// Appends the escaped body of `s` to `out`.
fn escape_into(out: &mut Vec<char>, s: &str)
    ensures
        final(out)@ == old(out)@ + spec_escape_string(s@),
{
    let n = s.unicode_len();
    for i in 0..n
        invariant
            n == s@.len(),
            out@ == old(out)@ + spec_escape_string(s@.take(i as int)),
    {
        let c = s.get_char(i);
        if c == '"' {
            out.push('\\');
            out.push('"');
        } else if c == '\\' {
            out.push('\\');
            out.push('\\');
        } else if (c as u32) < 32 {
            out.push('\\');
            out.push('u');
            out.push('0');
            out.push('0');
            let hi = ((c as u32) / 16) as u8;
            let lo = ((c as u32) % 16) as u8;
            out.push((if hi < 10 { 48 + hi } else { 87 + hi }) as char);
            out.push((if lo < 10 { 48 + lo } else { 87 + lo }) as char);
        } else {
            out.push(c);
        }
        proof {
            lemma_escape_snoc(s@.take(i as int), s@[i as int]);
            assert(s@.take(i + 1) =~= s@.take(i as int).push(s@[i as int]));
            assert(out@ =~= old(out)@ + (spec_escape_string(s@.take(i as int)) + spec_escape_char(
                s@[i as int],
            )));
        }
    }
    proof {
        assert(s@.take(n as int) =~= s@);
    }
}

/// Writes `[`, the elements of `a`, `]` onto `out`.
#[verifier::loop_isolation(false)]
#[verifier::rlimit(60)]
fn write_arr(a: &Vec<Json>, out: &mut Vec<char>)
    ensures
        final(out)@ == old(out)@ + (seq!['['] + spec_elems_text(spec_elems_view(a@)) + seq![']']),
    decreases a,
{
    out.push('[');
    let n = a.len();
    for k in 0..n
        invariant
            n == a@.len(),
            out@ == old(out)@ + seq!['['] + spec_elems_text(spec_elems_view(a@).take(k as int)),
    {
        if k > 0 {
            out.push(',');
        }
        a[k].write_text(out);
        proof {
            lemma_elems_snoc(spec_elems_view(a@).take(k as int), a@[k as int]@);
            assert(spec_elems_view(a@).take(k + 1) =~= spec_elems_view(a@).take(k as int).push(
                a@[k as int]@,
            ));
            if k > 0 {
                assert(out@ =~= old(out)@ + seq!['['] + (spec_elems_text(
                    spec_elems_view(a@).take(k as int),
                ) + seq![','] + spec_json_text(a@[k as int]@)));
            } else {
                assert(spec_elems_text(spec_elems_view(a@).take(0)) =~= Seq::<char>::empty());
                assert(out@ =~= old(out)@ + seq!['['] + spec_json_text(a@[0]@));
            }
        }
    }
    out.push(']');
    proof {
        assert(spec_elems_view(a@).take(n as int) =~= spec_elems_view(a@));
        assert(out@ =~= old(out)@ + (seq!['['] + spec_elems_text(spec_elems_view(a@)) + seq![
            ']',
        ]));
    }
}

/// Writes `{`, the members of `m`, `}` onto `out`.
#[verifier::loop_isolation(false)]
#[verifier::rlimit(60)]
fn write_obj(m: &Vec<(String, Json)>, out: &mut Vec<char>)
    ensures
        final(out)@ == old(out)@ + (seq!['{'] + spec_members_text(spec_members_view(m@)) + seq![
            '}',
        ]),
    decreases m,
{
    out.push('{');
    let n = m.len();
    for k in 0..n
        invariant
            n == m@.len(),
            out@ == old(out)@ + seq!['{'] + spec_members_text(
                spec_members_view(m@).take(k as int),
            ),
    {
        if k > 0 {
            out.push(',');
        }
        out.push('"');
        escape_into(out, m[k].0.as_str());
        out.push('"');
        out.push(':');
        m[k].1.write_text(out);
        proof {
            lemma_members_snoc(
                spec_members_view(m@).take(k as int),
                m@[k as int].0@,
                m@[k as int].1@,
            );
            assert(spec_members_view(m@).take(k + 1) =~= spec_members_view(m@).take(k as int).push(
                (m@[k as int].0@, m@[k as int].1@),
            ));
            if k > 0 {
                assert(out@ =~= old(out)@ + seq!['{'] + (spec_members_text(
                    spec_members_view(m@).take(k as int),
                ) + seq![','] + (spec_string_text(m@[k as int].0@) + seq![':'] + spec_json_text(
                    m@[k as int].1@,
                ))));
            } else {
                assert(spec_members_text(spec_members_view(m@).take(0)) =~= Seq::<char>::empty());
                assert(out@ =~= old(out)@ + seq!['{'] + (spec_string_text(m@[0].0@) + seq![':']
                    + spec_json_text(m@[0].1@)));
            }
        }
    }
    out.push('}');
    proof {
        assert(spec_members_view(m@).take(n as int) =~= spec_members_view(m@));
        assert(out@ =~= old(out)@ + (seq!['{'] + spec_members_text(spec_members_view(m@)) + seq![
            '}',
        ]));
    }
}

impl Json {
    /// Writes the canonical JSON text of this value onto `out`.
    fn write_text(&self, out: &mut Vec<char>)
        ensures
            final(out)@ == old(out)@ + spec_json_text(self@),
        decreases self,
    {
        match self {
            Json::Null => {
                out.push('n');
                out.push('u');
                out.push('l');
                out.push('l');
                proof {
                    assert(out@ =~= old(out)@ + spec_json_text(self@));
                }
            },
            Json::Bool(b) => {
                if *b {
                    out.push('t');
                    out.push('r');
                    out.push('u');
                    out.push('e');
                } else {
                    out.push('f');
                    out.push('a');
                    out.push('l');
                    out.push('s');
                    out.push('e');
                }
                proof {
                    assert(out@ =~= old(out)@ + spec_json_text(self@));
                }
            },
            Json::Int(n) => {
                let mut d = int_chars(*n);
                out.append(&mut d);
            },
            Json::Num(s) => {
                push_str_chars(out, s.as_str());
            },
            Json::Str(s) => {
                out.push('"');
                escape_into(out, s.as_str());
                out.push('"');
                proof {
                    assert(out@ =~= old(out)@ + spec_string_text(s@));
                }
            },
            Json::Arr(a) => {
                write_arr(a, out);
                proof {
                    assert(old(out)@ + (seq!['['] + spec_elems_text(spec_elems_view(a@)) + seq![
                        ']',
                    ]) =~= old(out)@ + spec_json_text(self@));
                }
            },
            Json::Obj(m) => {
                write_obj(m, out);
                proof {
                    assert(old(out)@ + (seq!['{'] + spec_members_text(spec_members_view(m@))
                        + seq!['}']) =~= old(out)@ + spec_json_text(self@));
                }
            },
        }
    }

    /// The canonical JSON text of this value.
    pub fn to_text(&self) -> (r: String)
        ensures
            r@ == spec_json_text(self@),
    {
        let mut out: Vec<char> = Vec::new();
        self.write_text(&mut out);
        chars_to_string(&out)
    }

    /// Member lookup on an object: the first member named `key`.
    pub fn get<'a>(&'a self, key: &str) -> (r: Option<&'a Json>)
        ensures
            match r {
                Some(v) => spec_get(self@, key@) == Some(v@),
                None => spec_get(self@, key@) is None,
            },
    {
        match self {
            Json::Obj(ms) => member_lookup(ms, key),
            _ => None,
        }
    }

    /// Array indexing.
    pub fn at<'a>(&'a self, i: usize) -> (r: Option<&'a Json>)
        ensures
            match r {
                Some(v) => spec_index(self@, i as int) == Some(v@),
                None => spec_index(self@, i as int) is None,
            },
    {
        match self {
            Json::Arr(a) => if i < a.len() {
                proof {
                    assert(spec_elems_view(a@)[i as int] == a@[i as int]@);
                }
                Some(&a[i])
            } else {
                None
            },
            _ => None,
        }
    }

    /// The string content if this is a string value.
    pub fn as_str<'a>(&'a self) -> (r: Option<&'a String>)
        ensures
            match r {
                Some(s) => self@ == JsonModel::Str(s@),
                None => !(self@ is Str),
            },
    {
        match self {
            Json::Str(s) => Some(s),
            _ => None,
        }
    }

    /// The elements if this is an array value.
    pub fn as_arr<'a>(&'a self) -> (r: Option<&'a Vec<Json>>)
        ensures
            match r {
                Some(a) => self@ == JsonModel::Arr(spec_elems_view(a@)),
                None => !(self@ is Arr),
            },
    {
        match self {
            Json::Arr(a) => Some(a),
            _ => None,
        }
    }

    /// The boolean content if this is a boolean value.
    pub fn as_bool(&self) -> (r: Option<bool>)
        ensures
            match r {
                Some(b) => self@ == JsonModel::Bool(b),
                None => !(self@ is Bool),
            },
    {
        match self {
            Json::Bool(b) => Some(*b),
            _ => None,
        }
    }

    /// The integer content if this is an integer in `i64` range.
    pub fn as_i64(&self) -> (r: Option<i64>)
        ensures
            match r {
                Some(n) => self@ == JsonModel::Int(n as int),
                None => !(self@ is Int),
            },
    {
        match self {
            Json::Int(n) => Some(*n),
            _ => None,
        }
    }
}

} // verus!
