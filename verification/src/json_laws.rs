//! Round-trip laws of the JSON codec: a value the library prints is
//! read back unchanged by its parser.

use vstd::prelude::*;

use crate::json::{
    sp_arr, sp_arr_tail, sp_member, sp_number, sp_obj, sp_obj_tail, sp_string_body, sp_value,
    spec_dec_digits, spec_digit_char, spec_digit_val, spec_digits_val, spec_elems_text,
    spec_end_digits, spec_escape_char, spec_escape_string, spec_hex_char, spec_hex_val,
    spec_int_text, spec_is_digit, spec_is_hex, spec_is_ws, spec_json_text, spec_members_text,
    spec_parse_json, spec_skip_ws, spec_string_text, JsonModel,
};

verus! {

/// The text `t` stands in `s` beginning at `i`.
pub open spec fn spec_text_at(s: Seq<char>, i: int, t: Seq<char>) -> bool {
    0 <= i && i + t.len() <= s.len() && s.subrange(i, i + t.len() as int) == t
}

/// A character that could extend a preceding numeric literal.
pub open spec fn spec_num_follow(c: char) -> bool {
    spec_is_digit(c) || c == '.' || c == 'e' || c == 'E'
}

proof fn lemma_text_char(s: Seq<char>, i: int, t: Seq<char>, k: int)
    requires
        spec_text_at(s, i, t),
        0 <= k < t.len(),
    ensures
        s[i + k] == t[k],
{
    assert(s.subrange(i, i + t.len() as int)[k] == s[i + k]);
}

proof fn lemma_text_prefix(s: Seq<char>, i: int, t: Seq<char>, p: Seq<char>)
    requires
        spec_text_at(s, i, t),
        p.len() <= t.len(),
        forall|k: int| 0 <= k < p.len() ==> p[k] == t[k],
    ensures
        spec_text_at(s, i, p),
{
    assert forall|k: int| 0 <= k < p.len() implies s.subrange(i, i + p.len() as int)[k] == p[k] by {
        lemma_text_char(s, i, t, k);
    }
    assert(s.subrange(i, i + p.len() as int) =~= p);
}

proof fn lemma_char_u32_round_trip(c: char)
    ensures
        ((c as u32) as char) == c,
{
}

proof fn lemma_digit_char_round_trip(d: int)
    requires
        0 <= d < 10,
    ensures
        spec_is_digit(spec_digit_char(d)),
        spec_digit_val(spec_digit_char(d)) == d,
{
}

proof fn lemma_hex_char_round_trip(d: int)
    requires
        0 <= d < 16,
    ensures
        spec_is_hex(spec_hex_char(d)),
        spec_hex_val(spec_hex_char(d)) == d,
{
}

proof fn lemma_text_shift(s: Seq<char>, i: int, t: Seq<char>, a: Seq<char>, b: Seq<char>)
    requires
        spec_text_at(s, i, t),
        t == a + b,
    ensures
        spec_text_at(s, i, a),
        spec_text_at(s, i + a.len(), b),
{
    assert forall|k: int| 0 <= k < a.len() implies a[k] == t[k] by {
        assert(t[k] == (a + b)[k]);
    }
    lemma_text_prefix(s, i, t, a);
    assert forall|k: int|
        0 <= k < b.len() implies s.subrange(
        i + a.len(),
        i + a.len() + b.len() as int,
    )[k] == b[k] by {
        lemma_text_char(s, i, t, a.len() + k);
        assert(t[a.len() + k] == (a + b)[a.len() + k]);
    }
    assert(s.subrange(i + a.len(), i + a.len() + b.len() as int) =~= b);
}

proof fn lemma_dec_digits_props(m: nat)
    ensures
        spec_dec_digits(m).len() >= 1,
        forall|k: int|
            0 <= k < spec_dec_digits(m).len() ==> spec_is_digit(#[trigger] spec_dec_digits(m)[k]),
    decreases m,
{
    if m < 10 {
        lemma_digit_char_round_trip(m as int);
    } else {
        lemma_dec_digits_props(m / 10);
        lemma_digit_char_round_trip((m % 10) as int);
        let a = spec_dec_digits(m / 10);
        assert forall|k: int| 0 <= k < spec_dec_digits(m).len() implies spec_is_digit(
            #[trigger] spec_dec_digits(m)[k],
        ) by {
            if k < a.len() {
                assert(spec_dec_digits(m)[k] == a[k]);
            } else {
                assert(spec_dec_digits(m)[k] == spec_digit_char((m % 10) as int));
            }
        }
    }
}

proof fn lemma_end_digits_run(s: Seq<char>, lo: int, hi: int)
    requires
        0 <= lo <= hi <= s.len(),
        forall|k: int| lo <= k < hi ==> spec_is_digit(#[trigger] s[k]),
        hi == s.len() || !spec_is_digit(s[hi]),
    ensures
        spec_end_digits(s, lo) == hi,
    decreases hi - lo,
{
    if lo < hi {
        lemma_end_digits_run(s, lo + 1, hi);
    }
}

proof fn lemma_digits_val_text(m: nat, s: Seq<char>, lo: int)
    requires
        spec_text_at(s, lo, spec_dec_digits(m)),
    ensures
        spec_digits_val(s, lo, lo + spec_dec_digits(m).len()) == m,
    decreases m,
{
    let t = spec_dec_digits(m);
    if m < 10 {
        lemma_text_char(s, lo, t, 0);
        lemma_digit_char_round_trip(m as int);
        assert(spec_digits_val(s, lo, lo + 1) == spec_digits_val(s, lo, lo) * 10 + spec_digit_val(
            s[lo],
        ));
    } else {
        let a = spec_dec_digits(m / 10);
        lemma_text_prefix(s, lo, t, a);
        lemma_digits_val_text(m / 10, s, lo);
        lemma_text_char(s, lo, t, t.len() - 1);
        assert(t[t.len() - 1] == spec_digit_char((m % 10) as int));
        lemma_digit_char_round_trip((m % 10) as int);
        assert(spec_digits_val(s, lo, lo + t.len()) == spec_digits_val(
            s,
            lo,
            lo + t.len() - 1,
        ) * 10 + spec_digit_val(s[lo + t.len() - 1]));
        assert((m / 10) * 10 + (m % 10) == m);
    }
}

proof fn lemma_int_embed(n: int, s: Seq<char>, i: int)
    requires
        -0x8000000000000000 <= n <= 0x7fffffffffffffff,
        spec_text_at(s, i, spec_int_text(n)),
        i + spec_int_text(n).len() == s.len() || !spec_num_follow(
            s[i + spec_int_text(n).len()],
        ),
    ensures
        sp_number(s, i) == Some((JsonModel::Int(n), i + spec_int_text(n).len())),
        s[i] == '-' || spec_is_digit(s[i]),
    decreases 0int,
{
    let t = spec_int_text(n);
    if n >= 0 {
        let m = n as nat;
        lemma_dec_digits_props(m);
        lemma_text_char(s, i, t, 0);
        assert(spec_is_digit(s[i]));
        assert(s[i] != '-') by {
            lemma_digit_char_round_trip(spec_digit_val(s[i]));
        }
        let i1 = i + t.len();
        assert forall|k: int| i <= k < i1 implies spec_is_digit(#[trigger] s[k]) by {
            lemma_text_char(s, i, t, k - i);
        }
        lemma_end_digits_run(s, i, i1);
        lemma_digits_val_text(m, s, i);
        assert(i1 == s.len() || !spec_is_digit(s[i1]));
        assert(i1 < s.len() ==> s[i1] != '.' && s[i1] != 'e' && s[i1] != 'E');
    } else {
        let m = (-n) as nat;
        lemma_dec_digits_props(m);
        lemma_text_char(s, i, t, 0);
        assert(s[i] == '-');
        let d = spec_dec_digits(m);
        assert forall|k: int| 0 <= k < d.len() implies s[i + 1 + k] == d[k] by {
            lemma_text_char(s, i, t, k + 1);
        }
        assert(s.subrange(i + 1, i + 1 + d.len() as int) =~= d);
        let i1 = i + 1 + d.len();
        assert forall|k: int| i + 1 <= k < i1 implies spec_is_digit(#[trigger] s[k]) by {
            assert(s[k] == d[k - (i + 1)]);
        }
        lemma_end_digits_run(s, i + 1, i1);
        lemma_digits_val_text(m, s, i + 1);
        assert(spec_is_digit(s[i + 1]));
        assert(i1 == s.len() || !spec_is_digit(s[i1]));
        assert(i1 < s.len() ==> s[i1] != '.' && s[i1] != 'e' && s[i1] != 'E');
        assert(spec_digits_val(s, i + 1, i1) == m);
        assert(m <= 0x8000000000000000);
    }
}

proof fn lemma_string_body_embed(str: Seq<char>, s: Seq<char>, i: int)
    requires
        spec_text_at(s, i, spec_escape_string(str) + seq!['"']),
    ensures
        sp_string_body(s, i) == Some((str, i + spec_escape_string(str).len() + 1)),
    decreases str.len(),
{
    let esc = spec_escape_string(str);
    let t = esc + seq!['"'];
    if str.len() == 0 {
        lemma_text_char(s, i, t, 0);
        assert(s[i] == '"');
        assert(str =~= Seq::<char>::empty());
    } else {
        let c = str[0];
        let ec = spec_escape_char(c);
        let rest = spec_escape_string(str.drop_first());
        assert(esc == ec + rest);
        assert(t =~= ec + (rest + seq!['"']));
        lemma_text_shift(s, i, t, ec, rest + seq!['"']);
        lemma_string_body_embed(str.drop_first(), s, i + ec.len());
        let j = i + ec.len();
        let k = j + rest.len() + 1;
        assert(sp_string_body(s, j) == Some((str.drop_first(), k)));
        if c == '"' {
            lemma_text_char(s, i, t, 0);
            lemma_text_char(s, i, t, 1);
            assert(s[i] == '\\' && s[i + 1] == '"');
            assert(crate::json::sp_escape(s, i + 1) == Some(('"', i + 2)));
            assert(seq![c] + str.drop_first() =~= str);
        } else if c == '\\' {
            lemma_text_char(s, i, t, 0);
            lemma_text_char(s, i, t, 1);
            assert(s[i] == '\\' && s[i + 1] == '\\');
            assert(crate::json::sp_escape(s, i + 1) == Some(('\\', i + 2)));
            assert(seq![c] + str.drop_first() =~= str);
        } else if (c as u32) < 32 {
            lemma_text_char(s, i, t, 0);
            lemma_text_char(s, i, t, 1);
            lemma_text_char(s, i, t, 2);
            lemma_text_char(s, i, t, 3);
            lemma_text_char(s, i, t, 4);
            lemma_text_char(s, i, t, 5);
            assert(s[i] == '\\' && s[i + 1] == 'u' && s[i + 2] == '0' && s[i + 3] == '0');
            let hi = (c as u32) as int / 16;
            let lo = (c as u32) as int % 16;
            assert(s[i + 4] == spec_hex_char(hi) && s[i + 5] == spec_hex_char(lo));
            lemma_hex_char_round_trip(hi);
            lemma_hex_char_round_trip(lo);
            assert('0' as u32 == 48);
            assert(spec_is_hex('0') && spec_hex_val('0') == 0);
            let h = spec_hex_val(s[i + 2]) * 4096 + spec_hex_val(s[i + 3]) * 256 + spec_hex_val(
                s[i + 4],
            ) * 16 + spec_hex_val(s[i + 5]);
            assert(h == hi * 16 + lo);
            assert(h == c as u32) by {
                assert(((c as u32) as int / 16) * 16 + (c as u32) as int % 16 == (c as u32) as int);
            }
            assert(crate::json::sp_hex4(s, i + 2) == Some(h));
            assert(h < 0xD800);
            assert((h as u32) as char == c) by {
                lemma_char_u32_round_trip(c);
            }
            assert(crate::json::sp_unicode(s, i + 2) == Some((c, i + 6)));
            assert(crate::json::sp_escape(s, i + 1) == Some((c, i + 6)));
            assert(seq![c] + str.drop_first() =~= str);
        } else {
            lemma_text_char(s, i, t, 0);
            assert(s[i] == c);
            assert(seq![c] + str.drop_first() =~= str);
        }
    }
}

/// A value the library's printer can write: numbers are integers in
/// `i64` range (raw numeric literals never come from the library's own
/// data), and so throughout.
pub open spec fn spec_printable(v: JsonModel) -> bool
    decreases v,
{
    match v {
        JsonModel::Null => true,
        JsonModel::Bool(_) => true,
        JsonModel::Int(n) => -0x8000000000000000 <= n <= 0x7fffffffffffffff,
        JsonModel::Num(_) => false,
        JsonModel::Str(_) => true,
        JsonModel::Arr(a) => forall|k: int| 0 <= k < a.len() ==> spec_printable(#[trigger] a[k]),
        JsonModel::Obj(ms) => forall|k: int|
            0 <= k < ms.len() ==> spec_printable(#[trigger] ms[k].1),
    }
}

proof fn lemma_text_shape(v: JsonModel)
    requires
        spec_printable(v),
    ensures
        spec_json_text(v).len() >= 1,
        !spec_is_ws(spec_json_text(v)[0]),
        spec_json_text(v)[0] != ']',
        spec_json_text(v)[0] != '}',
        spec_json_text(v)[0] != ',',
{
    match v {
        JsonModel::Int(n) => {
            if n >= 0 {
                lemma_dec_digits_props(n as nat);
                assert(spec_json_text(v)[0] == spec_dec_digits(n as nat)[0]);
                assert(spec_is_digit(spec_json_text(v)[0]));
            } else {
                lemma_dec_digits_props((-n) as nat);
                assert(spec_json_text(v)[0] == '-');
            }
        },
        _ => {},
    }
}

proof fn lemma_skip_ws_here(s: Seq<char>, i: int)
    requires
        0 <= i < s.len(),
        !spec_is_ws(s[i]),
    ensures
        spec_skip_ws(s, i) == i,
{
}

/// The text that follows an array's first element: the further
/// elements, each after a comma, and the closing bracket.
spec fn spec_arr_tail_text(rest: Seq<JsonModel>) -> Seq<char> {
    if rest.len() == 0 {
        seq![']']
    } else {
        seq![','] + spec_elems_text(rest) + seq![']']
    }
}

/// One `"key":value` member's text.
spec fn spec_member_text(kv: (Seq<char>, JsonModel)) -> Seq<char> {
    spec_string_text(kv.0) + seq![':'] + spec_json_text(kv.1)
}

/// The text that follows an object's first member.
spec fn spec_obj_tail_text(rest: Seq<(Seq<char>, JsonModel)>) -> Seq<char> {
    if rest.len() == 0 {
        seq!['}']
    } else {
        seq![','] + spec_members_text(rest) + seq!['}']
    }
}

proof fn lemma_value_embed(v: JsonModel, s: Seq<char>, i: int)
    requires
        spec_printable(v),
        spec_text_at(s, i, spec_json_text(v)),
        i + spec_json_text(v).len() == s.len() || !spec_num_follow(
            s[i + spec_json_text(v).len()],
        ),
    ensures
        sp_value(s, i) == Some((v, i + spec_json_text(v).len())),
    decreases v, 1int,
{
    let t = spec_json_text(v);
    lemma_text_shape(v);
    lemma_text_char(s, i, t, 0);
    lemma_skip_ws_here(s, i);
    match v {
        JsonModel::Null => {
            lemma_text_char(s, i, t, 1);
            lemma_text_char(s, i, t, 2);
            lemma_text_char(s, i, t, 3);
            assert(s[i] == 'n' && s[i + 1] == 'u' && s[i + 2] == 'l' && s[i + 3] == 'l');
        },
        JsonModel::Bool(b) => {
            if b {
                lemma_text_char(s, i, t, 1);
                lemma_text_char(s, i, t, 2);
                lemma_text_char(s, i, t, 3);
                assert(s[i] == 't' && s[i + 1] == 'r' && s[i + 2] == 'u' && s[i + 3] == 'e');
            } else {
                lemma_text_char(s, i, t, 1);
                lemma_text_char(s, i, t, 2);
                lemma_text_char(s, i, t, 3);
                lemma_text_char(s, i, t, 4);
                assert(s[i] == 'f' && s[i + 1] == 'a' && s[i + 2] == 'l' && s[i + 3] == 's' && s[i
                    + 4] == 'e');
            }
        },
        JsonModel::Int(n) => {
            lemma_int_embed(n, s, i);
            assert(s[i] == '-' || spec_is_digit(s[i]));
            assert(s[i] != 'n' && s[i] != 't' && s[i] != 'f' && s[i] != '"' && s[i] != '['
                && s[i] != '{') by {
                if s[i] == '-' {
                    assert(s[i] as u32 == 45);
                } else {
                    assert(48 <= s[i] as u32 <= 57);
                }
            }
        },
        JsonModel::Num(_) => {
            assert(false);
        },
        JsonModel::Str(str) => {
            assert(t =~= seq!['"'] + (spec_escape_string(str) + seq!['"']));
            lemma_text_shift(s, i, t, seq!['"'], spec_escape_string(str) + seq!['"']);
            lemma_string_body_embed(str, s, i + 1);
            assert(s[i] == '"');
        },
        JsonModel::Arr(a) => {
            assert(t =~= seq!['['] + (spec_elems_text(a) + seq![']']));
            lemma_text_shift(s, i, t, seq!['['], spec_elems_text(a) + seq![']']);
            lemma_arr_embed(a, s, i + 1);
            assert(s[i] == '[');
        },
        JsonModel::Obj(ms) => {
            assert(t =~= seq!['{'] + (spec_members_text(ms) + seq!['}']));
            lemma_text_shift(s, i, t, seq!['{'], spec_members_text(ms) + seq!['}']);
            lemma_obj_embed(ms, s, i + 1);
            assert(s[i] == '{');
        },
    }
}

proof fn lemma_arr_embed(a: Seq<JsonModel>, s: Seq<char>, i: int)
    requires
        forall|k: int| 0 <= k < a.len() ==> spec_printable(#[trigger] a[k]),
        spec_text_at(s, i, spec_elems_text(a) + seq![']']),
    ensures
        sp_arr(s, i) == Some((a, i + spec_elems_text(a).len() + 1)),
    decreases a, 2int,
{
    let t = spec_elems_text(a) + seq![']'];
    if a.len() == 0 {
        lemma_text_char(s, i, t, 0);
        assert(s[i] == ']');
        lemma_skip_ws_here(s, i);
        assert(a =~= Seq::<JsonModel>::empty());
    } else {
        let first = spec_json_text(a[0]);
        let rest = a.drop_first();
        assert(t =~= first + spec_arr_tail_text(rest)) by {
            if a.len() == 1 {
                assert(rest.len() == 0);
            }
        }
        lemma_text_shift(s, i, t, first, spec_arr_tail_text(rest));
        lemma_text_shape(a[0]);
        lemma_text_char(s, i, t, 0);
        lemma_skip_ws_here(s, i);
        assert(s[i] == first[0]);
        assert(s[i] != ']');
        let j = i + first.len();
        lemma_text_char(s, j, spec_arr_tail_text(rest), 0);
        assert(s[j] == ',' || s[j] == ']');
        assert(!spec_num_follow(s[j])) by {
            assert(s[j] as u32 == 44 || s[j] as u32 == 93);
        }
        lemma_value_embed(a[0], s, i);
        lemma_arr_tail_embed(rest, s, j);
        assert(seq![a[0]] + rest =~= a);
    }
}

proof fn lemma_arr_tail_embed(rest: Seq<JsonModel>, s: Seq<char>, i: int)
    requires
        forall|k: int| 0 <= k < rest.len() ==> spec_printable(#[trigger] rest[k]),
        spec_text_at(s, i, spec_arr_tail_text(rest)),
    ensures
        sp_arr_tail(s, i) == Some((rest, i + spec_arr_tail_text(rest).len())),
    decreases rest, 0int,
{
    let t = spec_arr_tail_text(rest);
    lemma_text_char(s, i, t, 0);
    if rest.len() == 0 {
        assert(s[i] == ']');
        lemma_skip_ws_here(s, i);
        assert(rest =~= Seq::<JsonModel>::empty());
    } else {
        assert(s[i] == ',');
        lemma_skip_ws_here(s, i);
        let first = spec_json_text(rest[0]);
        let further = rest.drop_first();
        assert(t =~= seq![','] + (first + spec_arr_tail_text(further))) by {
            if rest.len() == 1 {
                assert(further.len() == 0);
            }
        }
        lemma_text_shift(s, i, t, seq![','], first + spec_arr_tail_text(further));
        lemma_text_shift(s, i + 1, first + spec_arr_tail_text(further), first,
            spec_arr_tail_text(further));
        lemma_text_shape(rest[0]);
        let j = i + 1 + first.len();
        lemma_text_char(s, j, spec_arr_tail_text(further), 0);
        assert(s[j] == ',' || s[j] == ']');
        assert(!spec_num_follow(s[j])) by {
            assert(s[j] as u32 == 44 || s[j] as u32 == 93);
        }
        lemma_value_embed(rest[0], s, i + 1);
        lemma_arr_tail_embed(further, s, j);
        assert(seq![rest[0]] + further =~= rest);
    }
}

proof fn lemma_member_embed(kv: (Seq<char>, JsonModel), s: Seq<char>, i: int)
    requires
        spec_printable(kv.1),
        spec_text_at(s, i, spec_member_text(kv)),
        i + spec_member_text(kv).len() == s.len() || !spec_num_follow(
            s[i + spec_member_text(kv).len()],
        ),
    ensures
        sp_member(s, i) == Some((kv, i + spec_member_text(kv).len())),
    decreases kv, 1int,
{
    let t = spec_member_text(kv);
    let key_text = spec_string_text(kv.0);
    let esc = spec_escape_string(kv.0);
    assert(t =~= seq!['"'] + ((esc + seq!['"']) + (seq![':'] + spec_json_text(kv.1))));
    lemma_text_shift(s, i, t, seq!['"'], (esc + seq!['"']) + (seq![':'] + spec_json_text(kv.1)));
    lemma_text_shift(
        s,
        i + 1,
        (esc + seq!['"']) + (seq![':'] + spec_json_text(kv.1)),
        esc + seq!['"'],
        seq![':'] + spec_json_text(kv.1),
    );
    lemma_text_char(s, i, t, 0);
    assert(s[i] == '"');
    lemma_skip_ws_here(s, i);
    lemma_string_body_embed(kv.0, s, i + 1);
    let p = i + 1 + esc.len() + 1;
    lemma_text_char(s, p, seq![':'] + spec_json_text(kv.1), 0);
    assert(s[p] == ':');
    lemma_skip_ws_here(s, p);
    lemma_text_shift(s, p, seq![':'] + spec_json_text(kv.1), seq![':'], spec_json_text(kv.1));
    lemma_value_embed(kv.1, s, p + 1);
}

proof fn lemma_obj_embed(ms: Seq<(Seq<char>, JsonModel)>, s: Seq<char>, i: int)
    requires
        forall|k: int| 0 <= k < ms.len() ==> spec_printable(#[trigger] ms[k].1),
        spec_text_at(s, i, spec_members_text(ms) + seq!['}']),
    ensures
        sp_obj(s, i) == Some((ms, i + spec_members_text(ms).len() + 1)),
    decreases ms, 2int,
{
    let t = spec_members_text(ms) + seq!['}'];
    lemma_text_char(s, i, t, 0);
    if ms.len() == 0 {
        assert(s[i] == '}');
        lemma_skip_ws_here(s, i);
        assert(ms =~= Seq::<(Seq<char>, JsonModel)>::empty());
    } else {
        let first = spec_member_text(ms[0]);
        let rest = ms.drop_first();
        assert(t =~= first + spec_obj_tail_text(rest)) by {
            if ms.len() == 1 {
                assert(rest.len() == 0);
            }
        }
        lemma_text_shift(s, i, t, first, spec_obj_tail_text(rest));
        assert(first[0] == '"');
        assert(s[i] == '"');
        lemma_skip_ws_here(s, i);
        assert(s[i] != '}');
        let j = i + first.len();
        lemma_text_char(s, j, spec_obj_tail_text(rest), 0);
        assert(s[j] == ',' || s[j] == '}');
        assert(!spec_num_follow(s[j])) by {
            assert(s[j] as u32 == 44 || s[j] as u32 == 125);
        }
        lemma_member_embed(ms[0], s, i);
        lemma_obj_tail_embed(rest, s, j);
        assert(seq![ms[0]] + rest =~= ms);
    }
}

proof fn lemma_obj_tail_embed(rest: Seq<(Seq<char>, JsonModel)>, s: Seq<char>, i: int)
    requires
        forall|k: int| 0 <= k < rest.len() ==> spec_printable(#[trigger] rest[k].1),
        spec_text_at(s, i, spec_obj_tail_text(rest)),
    ensures
        sp_obj_tail(s, i) == Some((rest, i + spec_obj_tail_text(rest).len())),
    decreases rest, 0int,
{
    let t = spec_obj_tail_text(rest);
    lemma_text_char(s, i, t, 0);
    if rest.len() == 0 {
        assert(s[i] == '}');
        lemma_skip_ws_here(s, i);
        assert(rest =~= Seq::<(Seq<char>, JsonModel)>::empty());
    } else {
        assert(s[i] == ',');
        lemma_skip_ws_here(s, i);
        let first = spec_member_text(rest[0]);
        let further = rest.drop_first();
        assert(t =~= seq![','] + (first + spec_obj_tail_text(further))) by {
            if rest.len() == 1 {
                assert(further.len() == 0);
            }
        }
        lemma_text_shift(s, i, t, seq![','], first + spec_obj_tail_text(further));
        lemma_text_shift(s, i + 1, first + spec_obj_tail_text(further), first,
            spec_obj_tail_text(further));
        let j = i + 1 + first.len();
        lemma_text_char(s, j, spec_obj_tail_text(further), 0);
        assert(s[j] == ',' || s[j] == '}');
        assert(!spec_num_follow(s[j])) by {
            assert(s[j] as u32 == 44 || s[j] as u32 == 125);
        }
        lemma_member_embed(rest[0], s, i + 1);
        lemma_obj_tail_embed(further, s, j);
        assert(seq![rest[0]] + further =~= rest);
    }
}

/// Law: printing and reparsing is the identity: the canonical text of
/// any value the library can print parses back to exactly that value.
pub proof fn lemma_parse_of_printed(v: JsonModel)
    requires
        spec_printable(v),
    ensures
        spec_parse_json(spec_json_text(v)) == Some(v),
{
    let s = spec_json_text(v);
    assert(s.subrange(0, s.len() as int) =~= s);
    lemma_value_embed(v, s, 0);
    assert(spec_skip_ws(s, s.len() as int) == s.len());
}

} // verus!
