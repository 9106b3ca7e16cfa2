//! The `application/x-www-form-urlencoded` writing of query strings:
//! how a parameter list becomes the query part of a URL.

use vstd::prelude::*;
use vstd::utf8::encode_utf8;

verus! {

/// The uppercase hexadecimal digit character for `d` in `0 ..= 15`.
pub open spec fn spec_hex_upper(d: int) -> char {
    if d < 10 {
        ((48 + d) as u8) as char
    } else {
        ((55 + d) as u8) as char
    }
}

/// How one byte is written in a form-urlencoded string: space becomes
/// `+`; ASCII alphanumerics and `*`, `-`, `.`, `_` stand for
/// themselves; every other byte becomes `%` and two uppercase hex
/// digits.
pub open spec fn spec_form_byte(b: u8) -> Seq<char> {
    if b == 32 {
        seq!['+']
    } else if (48 <= b && b <= 57) || (65 <= b && b <= 90) || (97 <= b && b <= 122) || b == 42 || b
        == 45 || b == 46 || b == 95 {
        seq![b as char]
    } else {
        seq!['%', spec_hex_upper(b as int / 16), spec_hex_upper(b as int % 16)]
    }
}

/// The form-urlencoded writing of a byte sequence.
pub open spec fn spec_form_encode(bs: Seq<u8>) -> Seq<char>
    decreases bs.len(),
{
    if bs.len() == 0 {
        Seq::empty()
    } else {
        spec_form_byte(bs[0]) + spec_form_encode(bs.drop_first())
    }
}

/// The form-urlencoded writing of a string: its UTF-8 bytes, escaped.
pub open spec fn spec_form_encode_str(s: Seq<char>) -> Seq<char> {
    spec_form_encode(encode_utf8(s))
}

/// One `key=value` pair, both sides escaped.
pub open spec fn spec_query_pair(kv: (Seq<char>, Seq<char>)) -> Seq<char> {
    spec_form_encode_str(kv.0) + seq!['='] + spec_form_encode_str(kv.1)
}

/// A query string: `key=value` pairs joined with `&`.
pub open spec fn spec_query(ps: Seq<(Seq<char>, Seq<char>)>) -> Seq<char>
    decreases ps.len(),
{
    if ps.len() == 0 {
        Seq::empty()
    } else if ps.len() == 1 {
        spec_query_pair(ps[0])
    } else {
        spec_query_pair(ps[0]) + seq!['&'] + spec_query(ps.drop_first())
    }
}

proof fn lemma_form_encode_snoc(bs: Seq<u8>, b: u8)
    ensures
        spec_form_encode(bs.push(b)) == spec_form_encode(bs) + spec_form_byte(b),
    decreases bs.len(),
{
    if bs.len() == 0 {
        assert(bs.push(b)[0] == b);
        assert(bs.push(b).drop_first() =~= Seq::<u8>::empty());
        assert(spec_form_encode(bs.push(b)) == spec_form_byte(b) + spec_form_encode(
            Seq::<u8>::empty(),
        ));
        assert(spec_form_byte(b) + Seq::<char>::empty() =~= spec_form_encode(bs) + spec_form_byte(
            b,
        ));
    } else {
        lemma_form_encode_snoc(bs.drop_first(), b);
        assert(bs.push(b)[0] == bs[0]);
        assert(bs.push(b).drop_first() =~= bs.drop_first().push(b));
        assert(spec_form_byte(bs[0]) + (spec_form_encode(bs.drop_first()) + spec_form_byte(b))
            =~= (spec_form_byte(bs[0]) + spec_form_encode(bs.drop_first())) + spec_form_byte(b));
    }
}

proof fn lemma_query_snoc(ps: Seq<(Seq<char>, Seq<char>)>, kv: (Seq<char>, Seq<char>))
    ensures
        spec_query(ps.push(kv)) == if ps.len() == 0 {
            spec_query_pair(kv)
        } else {
            spec_query(ps) + seq!['&'] + spec_query_pair(kv)
        },
    decreases ps.len(),
{
    if ps.len() == 0 {
        assert(ps.push(kv)[0] == kv);
    } else if ps.len() == 1 {
        assert(ps.push(kv)[0] == ps[0]);
        assert(ps.push(kv).drop_first() =~= seq![kv]);
        assert(seq![kv][0] == kv);
        assert(spec_query(seq![kv]) == spec_query_pair(kv));
    } else {
        lemma_query_snoc(ps.drop_first(), kv);
        assert(ps.push(kv)[0] == ps[0]);
        assert(ps.push(kv).drop_first() =~= ps.drop_first().push(kv));
        assert(ps.drop_first().len() >= 1);
        assert(spec_query_pair(ps[0]) + seq!['&'] + (spec_query(ps.drop_first()) + seq!['&']
            + spec_query_pair(kv)) =~= (spec_query_pair(ps[0]) + seq!['&'] + spec_query(
            ps.drop_first(),
        )) + seq!['&'] + spec_query_pair(kv));
    }
}

/// Appends the form-urlencoded writing of `s` to `out`.
fn form_encode_into(out: &mut Vec<char>, s: &str)
    ensures
        final(out)@ == old(out)@ + spec_form_encode_str(s@),
{
    let bytes = s.as_bytes_vec();
    let n = bytes.len();
    for i in 0..n
        invariant
            n == bytes@.len(),
            bytes@ == encode_utf8(s@),
            out@ == old(out)@ + spec_form_encode(bytes@.take(i as int)),
    {
        let b = bytes[i];
        if b == 32 {
            out.push('+');
        } else if (48 <= b && b <= 57) || (65 <= b && b <= 90) || (97 <= b && b <= 122) || b == 42
            || b == 45 || b == 46 || b == 95 {
            out.push(b as char);
        } else {
            out.push('%');
            let hi = b / 16;
            let lo = b % 16;
            out.push((if hi < 10 { 48 + hi } else { 55 + hi }) as char);
            out.push((if lo < 10 { 48 + lo } else { 55 + lo }) as char);
        }
        proof {
            lemma_form_encode_snoc(bytes@.take(i as int), bytes@[i as int]);
            assert(bytes@.take(i + 1) =~= bytes@.take(i as int).push(bytes@[i as int]));
            assert(out@ =~= old(out)@ + (spec_form_encode(bytes@.take(i as int)) + spec_form_byte(
                bytes@[i as int],
            )));
        }
    }
    proof {
        assert(bytes@.take(n as int) =~= bytes@);
    }
}

/// The query string of a parameter list, pairs joined with `&` and both
/// sides form-urlencoded.
pub fn form_urlencode(params: &Vec<(String, String)>) -> (r: String)
    ensures
        r@ == spec_query(crate::auth::spec_params_view(params@)),
{
    let ghost full = crate::auth::spec_params_view(params@);
    let mut out: Vec<char> = Vec::new();
    let n = params.len();
    for i in 0..n
        invariant
            n == params@.len(),
            full == crate::auth::spec_params_view(params@),
            out@ == spec_query(full.take(i as int)),
    {
        if i > 0 {
            out.push('&');
        }
        form_encode_into(&mut out, params[i].0.as_str());
        out.push('=');
        form_encode_into(&mut out, params[i].1.as_str());
        proof {
            lemma_query_snoc(full.take(i as int), full[i as int]);
            assert(full.take(i + 1) =~= full.take(i as int).push(full[i as int]));
            if i > 0 {
                assert(out@ =~= spec_query(full.take(i as int)) + seq!['&'] + spec_query_pair(
                    full[i as int],
                ));
            } else {
                assert(spec_query(full.take(0)) =~= Seq::<char>::empty());
                assert(out@ =~= spec_query_pair(full[0]));
            }
        }
    }
    proof {
        assert(full.take(n as int) =~= full);
    }
    crate::json::chars_to_string(&out)
}

} // verus!
