//! The form-urlencoded request bodies the service accepts: pairs joined
//! by `&`, a key and value joined by `=`, `+` standing for a space, and
//! `%` ahead of two hex digits standing for a byte.
//!
//! The add form carries the field `text`; the delete form carries the
//! field `id`, a signed decimal numeral.

use vstd::prelude::*;
use crate::digits::{int_numeral_val, is_int_numeral, parse_i64};

verus! {

/// One byte is a hexadecimal digit.
pub open spec fn is_hex_digit(b: u8) -> bool {
    (48 <= b <= 57)  // '0' through '9'
    || (65 <= b <= 70)  // 'A' through 'F'
    || (97 <= b <= 102)  // 'a' through 'f'
}

/// The value of one hexadecimal digit.
pub open spec fn hex_val(b: u8) -> int
    recommends
        is_hex_digit(b),
{
    if 48 <= b <= 57 {
        b - 48
    } else if 65 <= b <= 70 {
        b - 55
    } else {
        b - 87
    }
}

/// `b` put ahead of a decoding that may have failed.
pub open spec fn opt_cons(b: u8, r: Option<Seq<u8>>) -> Option<Seq<u8>> {
    match r {
        Some(t) => Some(seq![b] + t),
        None => None,
    }
}

/// `p` put ahead of a decoding that may have failed.
pub open spec fn opt_concat(p: Seq<u8>, r: Option<Seq<u8>>) -> Option<Seq<u8>> {
    match r {
        Some(t) => Some(p + t),
        None => None,
    }
}

/// The decoding of one form value: `+` stands for a space, `%` ahead of
/// two hex digits stands for a byte, and every other byte stands for
/// itself. A `%` without two hex digits behind it is malformed.
pub open spec fn pct_decode(s: Seq<u8>) -> Option<Seq<u8>>
    decreases s.len(),
{
    if s.len() == 0 {
        Some(Seq::empty())
    } else if s[0] == 43 {  // '+'
        opt_cons(32, pct_decode(s.skip(1)))
    } else if s[0] == 37 {  // '%'
        if s.len() >= 3 && is_hex_digit(s[1]) && is_hex_digit(s[2]) {
            opt_cons((16 * hex_val(s[1]) + hex_val(s[2])) as u8, pct_decode(s.skip(3)))
        } else {
            None
        }
    } else {
        opt_cons(s[0], pct_decode(s.skip(1)))
    }
}

/// The position of the first `&` at or after `from`, or the length when
/// none follows.
pub open spec fn find_sep(s: Seq<u8>, from: int) -> int
    recommends
        0 <= from <= s.len(),
    decreases s.len() - from when 0 <= from <= s.len()
{
    if from >= s.len() {
        s.len() as int
    } else if s[from] == 38 {  // '&'
        from
    } else {
        find_sep(s, from + 1)
    }
}

/// The segment `[from, j)` of `s` starts with `key` followed by `=`.
pub open spec fn seg_matches(s: Seq<u8>, from: int, j: int, key: Seq<u8>) -> bool {
    &&& j - from > key.len()
    &&& (forall|k: int| 0 <= k < key.len() ==> s[from + k] == #[trigger] key[k])
    &&& s[from + key.len()] == 61  // '='
}

proof fn lemma_find_sep_bounds(s: Seq<u8>, from: int)
    requires
        0 <= from <= s.len(),
    ensures
        from <= find_sep(s, from) <= s.len(),
    decreases s.len() - from,
{
    if from < s.len() && s[from] != 38 {
        lemma_find_sep_bounds(s, from + 1);
    }
}

#[via_fn]
proof fn raw_lookup_dec(s: Seq<u8>, from: int, key: Seq<u8>) {
    lemma_find_sep_bounds(s, from);
}

/// The undecoded value of the first `&`-separated pair of `s`, at or
/// after `from`, whose key is `key`.
pub open spec fn raw_lookup(s: Seq<u8>, from: int, key: Seq<u8>) -> Option<Seq<u8>>
    recommends
        0 <= from <= s.len(),
    decreases s.len() - from when 0 <= from <= s.len() via raw_lookup_dec
{
    let j = find_sep(s, from);
    if seg_matches(s, from, j, key) {
        Some(s.subrange(from + key.len() + 1, j))
    } else if j < s.len() {
        raw_lookup(s, j + 1, key)
    } else {
        None
    }
}

/// The decoded value of the first pair of `s` whose key is `key`: absent
/// when no such pair exists, or its value is malformed.
pub open spec fn field_decoded(s: Seq<u8>, key: Seq<u8>) -> Option<Seq<u8>> {
    match raw_lookup(s, 0, key) {
        Some(v) => pct_decode(v),
        None => None,
    }
}

/// The bytes of the key of the add form, `text`.
pub open spec fn text_key() -> Seq<u8> {
    seq![116u8, 101u8, 120u8, 116u8]
}

/// The bytes of the key of the delete form, `id`.
pub open spec fn id_key() -> Seq<u8> {
    seq![105u8, 100u8]
}

/// The text the add form carries: the decoded `text` field, read as
/// UTF-8; absent when the field is missing or malformed.
pub open spec fn text_param(s: Seq<u8>) -> Option<Seq<char>> {
    match field_decoded(s, text_key()) {
        Some(b) => if vstd::utf8::valid_utf8(b) {
            Some(vstd::utf8::decode_utf8(b))
        } else {
            None
        },
        None => None,
    }
}

/// The identifier the delete form carries: the decoded `id` field, read
/// as a signed decimal numeral that fits an `i64`; absent otherwise.
pub open spec fn id_param(s: Seq<u8>) -> Option<int> {
    match field_decoded(s, id_key()) {
        Some(b) => if is_int_numeral(b) && i64::MIN <= int_numeral_val(b) <= i64::MAX {
            Some(int_numeral_val(b))
        } else {
            None
        },
        None => None,
    }
}

fn hex_digit_val(b: u8) -> (r: Option<u8>)
    ensures
        r is Some <==> is_hex_digit(b),
        r is Some ==> r.unwrap() as int == hex_val(b),
{
    if 48 <= b && b <= 57 {
        Some(b - 48)
    } else if 65 <= b && b <= 70 {
        Some(b - 55)
    } else if 97 <= b && b <= 102 {
        Some(b - 87)
    } else {
        None
    }
}

/// Decode the bytes of `s` in `[start, end)` as one form value.
fn decode_range(s: &Vec<u8>, start: usize, end: usize) -> (r: Option<Vec<u8>>)
    requires
        start <= end <= s@.len(),
    ensures
        match r {
            Some(v) => pct_decode(s@.subrange(start as int, end as int)) == Some(v@),
            None => pct_decode(s@.subrange(start as int, end as int)) is None,
        },
{
    let ghost t = s@.subrange(start as int, end as int);
    let mut out: Vec<u8> = Vec::new();
    let mut i: usize = start;
    proof {
        assert(t.skip(0) =~= t);
        if pct_decode(t) is Some {
            assert(Seq::<u8>::empty() + pct_decode(t).unwrap() =~= pct_decode(t).unwrap());
        }
    }
    while i < end
        invariant
            start <= i <= end <= s@.len(),
            t == s@.subrange(start as int, end as int),
            pct_decode(t) == opt_concat(out@, pct_decode(t.skip(i - start))),
        decreases end - i,
    {
        let ghost k = i - start;
        let ghost rest = t.skip(k);
        let ghost out0 = out@;
        proof {
            assert(rest[0] == s@[i as int]);
            assert(rest.skip(1) =~= t.skip(k + 1));
        }
        let b = s[i];
        if b == 43 {
            out.push(32);
            i = i + 1;
            proof {
                if pct_decode(t.skip(k + 1)) is Some {
                    assert(out0 + (seq![32u8] + pct_decode(t.skip(k + 1)).unwrap()) =~= out@
                        + pct_decode(t.skip(k + 1)).unwrap());
                }
                assert(pct_decode(t) == opt_concat(out@, pct_decode(t.skip(i - start))));
            }
        } else if b == 37 {
            if end - i >= 3 {
                let h1 = hex_digit_val(s[i + 1]);
                let h2 = hex_digit_val(s[i + 2]);
                proof {
                    assert(rest[1] == s@[i + 1]);
                    assert(rest[2] == s@[i + 2]);
                    assert(rest.skip(3) =~= t.skip(k + 3));
                }
                match (h1, h2) {
                    (Some(v1), Some(v2)) => {
                        let byte = 16 * v1 + v2;
                        out.push(byte);
                        i = i + 3;
                        proof {
                            if pct_decode(t.skip(k + 3)) is Some {
                                assert(out0 + (seq![byte] + pct_decode(t.skip(k + 3)).unwrap())
                                    =~= out@ + pct_decode(t.skip(k + 3)).unwrap());
                            }
                            assert(pct_decode(t) == opt_concat(out@, pct_decode(t.skip(i - start))));
                        }
                    },
                    _ => {
                        proof {
                            assert(pct_decode(rest) is None);
                        }
                        return None;
                    },
                }
            } else {
                proof {
                    assert(rest.len() < 3);
                    assert(pct_decode(rest) is None);
                }
                return None;
            }
        } else {
            out.push(b);
            i = i + 1;
            proof {
                if pct_decode(t.skip(k + 1)) is Some {
                    assert(out0 + (seq![b] + pct_decode(t.skip(k + 1)).unwrap()) =~= out@
                        + pct_decode(t.skip(k + 1)).unwrap());
                }
                assert(pct_decode(t) == opt_concat(out@, pct_decode(t.skip(i - start))));
            }
        }
    }
    proof {
        assert(t.skip(t.len() as int) =~= Seq::<u8>::empty());
        if pct_decode(t) is Some {
            assert(out@ + Seq::<u8>::empty() =~= out@);
        }
    }
    Some(out)
}

/// The position of the first `&` at or after `from`.
fn find_amp(s: &Vec<u8>, from: usize) -> (j: usize)
    requires
        from <= s@.len(),
    ensures
        from <= j <= s@.len(),
        j as int == find_sep(s@, from as int),
    decreases s@.len() - from,
{
    let mut i: usize = from;
    while i < s.len()
        invariant
            from <= i <= s@.len(),
            find_sep(s@, from as int) == find_sep(s@, i as int),
        decreases s@.len() - i,
    {
        if s[i] == 38 {
            proof {
                lemma_find_sep_bounds(s@, i as int);
            }
            return i;
        }
        i = i + 1;
    }
    i
}

/// Whether the segment `[from, j)` starts with `key` followed by `=`.
fn key_matches(s: &Vec<u8>, from: usize, j: usize, key: &Vec<u8>) -> (m: bool)
    requires
        from <= j <= s@.len(),
    ensures
        m == seg_matches(s@, from as int, j as int, key@),
{
    if j - from <= key.len() {
        return false;
    }
    let mut k: usize = 0;
    while k < key.len()
        invariant
            0 <= k <= key@.len(),
            from + key@.len() < j <= s@.len(),
            forall|q: int| 0 <= q < k ==> s@[from + q] == #[trigger] key@[q],
        decreases key@.len() - k,
    {
        if s[from + k] != key[k] {
            return false;
        }
        k = k + 1;
    }
    s[from + key.len()] == 61
}

/// The undecoded value range of the first pair of `s` whose key is `key`.
fn lookup(s: &Vec<u8>, key: &Vec<u8>) -> (r: Option<(usize, usize)>)
    ensures
        match r {
            Some(range) => {
                &&& range.0 <= range.1 <= s@.len()
                &&& raw_lookup(s@, 0, key@) == Some(
                    s@.subrange(range.0 as int, range.1 as int),
                )
            },
            None => raw_lookup(s@, 0, key@) is None,
        },
{
    let mut from: usize = 0;
    loop
        invariant
            0 <= from <= s@.len(),
            raw_lookup(s@, 0, key@) == raw_lookup(s@, from as int, key@),
        decreases s@.len() - from,
    {
        let j = find_amp(s, from);
        if key_matches(s, from, j, key) {
            return Some((from + key.len() + 1, j));
        }
        if j == s.len() {
            return None;
        }
        from = j + 1;
        proof {
            assert(raw_lookup(s@, 0, key@) == raw_lookup(s@, from as int, key@));
        }
    }
}

/// Relies on String::from_utf8: it succeeds exactly on valid UTF-8 and
/// returns the string whose characters are the bytes' decoding.
#[verifier::external_body]
fn bytes_to_string(v: Vec<u8>) -> (r: Option<String>)
    ensures
        r is Some <==> vstd::utf8::valid_utf8(v@),
        r is Some ==> r.unwrap()@ == vstd::utf8::decode_utf8(v@),
{
    match String::from_utf8(v) {
        Ok(s) => Some(s),
        Err(_) => None,
    }
}

/// The decoded `text` field of an add form, or nothing when the body
/// carries no well-formed `text` pair of valid UTF-8.
pub fn parse_text(body: &Vec<u8>) -> (r: Option<String>)
    ensures
        match r {
            Some(st) => text_param(body@) == Some(st@),
            None => text_param(body@) is None,
        },
{
    let mut key: Vec<u8> = Vec::new();
    key.push(116);  // 't'
    key.push(101);  // 'e'
    key.push(120);  // 'x'
    key.push(116);  // 't'
    proof {
        assert(key@ =~= text_key());
    }
    match lookup(body, &key) {
        Some(range) => {
            match decode_range(body, range.0, range.1) {
                Some(v) => bytes_to_string(v),
                None => None,
            }
        },
        None => None,
    }
}

/// The decoded `id` field of a delete form read as an `i64`, or nothing
/// when the body carries no well-formed numeric `id` pair.
pub fn parse_id(body: &Vec<u8>) -> (r: Option<i64>)
    ensures
        match r {
            Some(v) => id_param(body@) == Some(v as int),
            None => id_param(body@) is None,
        },
{
    let mut key: Vec<u8> = Vec::new();
    key.push(105);  // 'i'
    key.push(100);  // 'd'
    proof {
        assert(key@ =~= id_key());
    }
    match lookup(body, &key) {
        Some(range) => {
            match decode_range(body, range.0, range.1) {
                Some(v) => parse_i64(&v),
                None => None,
            }
        },
        None => None,
    }
}

} // verus!
