//! Decimal numerals: the digit string an identifier renders as, and the
//! reading of a form value's digits back into an integer.

use vstd::prelude::*;
use vstd::string::StrSliceExecFns;
use vstd::string::StringExecFns;

verus! {

/// The character for one decimal digit.
pub open spec fn digit_char(d: int) -> char
    recommends
        0 <= d < 10,
{
    if d == 0 {
        '0'
    } else if d == 1 {
        '1'
    } else if d == 2 {
        '2'
    } else if d == 3 {
        '3'
    } else if d == 4 {
        '4'
    } else if d == 5 {
        '5'
    } else if d == 6 {
        '6'
    } else if d == 7 {
        '7'
    } else if d == 8 {
        '8'
    } else {
        '9'
    }
}

/// The decimal numeral of a non-negative integer, most significant digit
/// first, without leading zeros (zero itself reads "0").
pub open spec fn dec_nat(n: nat) -> Seq<char>
    decreases n,
{
    if n < 10 {
        seq![digit_char(n as int)]
    } else {
        dec_nat(n / 10).push(digit_char((n % 10) as int))
    }
}

/// The decimal numeral of a signed integer: a minus sign ahead of the
/// magnitude when negative.
pub open spec fn dec_int(n: int) -> Seq<char> {
    if n >= 0 {
        dec_nat(n as nat)
    } else {
        seq!['-'] + dec_nat((-n) as nat)
    }
}

/// Relies on String::push: it appends exactly the one character.
#[verifier::external_body]
pub(crate) fn push_char(s: &mut String, c: char)
    ensures
        final(s)@ == old(s)@.push(c),
{
    s.push(c);
}

fn digit_to_char(d: u64) -> (c: char)
    requires
        d < 10,
    ensures
        c == digit_char(d as int),
{
    match d {
        0 => '0',
        1 => '1',
        2 => '2',
        3 => '3',
        4 => '4',
        5 => '5',
        6 => '6',
        7 => '7',
        8 => '8',
        _ => '9',
    }
}

/// The decimal numeral of `n`.
pub fn u64_to_string(n: u64) -> (r: String)
    ensures
        r@ == dec_nat(n as nat),
{
    if n == 0 {
        let mut r = String::new();
        push_char(&mut r, '0');
        proof {
            assert(r@ =~= dec_nat(0));
        }
        return r;
    }
    let mut digits: Vec<char> = Vec::new();
    let mut m: u64 = n;
    while m > 0
        invariant
            m > 0 ==> dec_nat(n as nat) =~= dec_nat(m as nat) + digits@.reverse(),
            m == 0 ==> dec_nat(n as nat) =~= digits@.reverse(),
        decreases m,
    {
        let ghost rev0 = digits@.reverse();
        let d = m % 10;
        let c = digit_to_char(d);
        digits.push(c);
        m = m / 10;
        proof {
            assert(digits@.reverse() =~= seq![c] + rev0);
            if m > 0 {
                assert(dec_nat(n as nat) =~= dec_nat(m as nat) + digits@.reverse());
            } else {
                assert(dec_nat(n as nat) =~= digits@.reverse());
            }
        }
    }
    let mut r = String::new();
    let mut i: usize = digits.len();
    while i > 0
        invariant
            i <= digits.len(),
            r@ =~= digits@.subrange(i as int, digits@.len() as int).reverse(),
        decreases i,
    {
        i = i - 1;
        let c = digits[i];
        push_char(&mut r, c);
        proof {
            assert(r@ =~= digits@.subrange(i as int, digits@.len() as int).reverse());
        }
    }
    proof {
        assert(digits@.subrange(0, digits@.len() as int) =~= digits@);
        assert(r@ =~= dec_nat(n as nat));
    }
    r
}

/// The decimal numeral of `n`, sign included.
pub fn i64_to_string(n: i64) -> (r: String)
    ensures
        r@ == dec_int(n as int),
{
    if n >= 0 {
        u64_to_string(n as u64)
    } else {
        let mag: u64 = ((-(n + 1)) as u64) + 1;
        let mut r = String::new();
        push_char(&mut r, '-');
        let m = u64_to_string(mag);
        r.append(m.as_str());
        proof {
            assert(r@ =~= dec_int(n as int));
        }
        r
    }
}

/// One byte is a decimal digit.
pub open spec fn is_digit(b: u8) -> bool {
    48 <= b <= 57  // '0' through '9'
}

/// All bytes of `s` are decimal digits.
pub open spec fn all_digits(s: Seq<u8>) -> bool {
    forall|i: int| 0 <= i < s.len() ==> is_digit(#[trigger] s[i])
}

/// The non-negative integer a digit string denotes, most significant
/// digit first.
pub open spec fn digits_val(s: Seq<u8>) -> int
    decreases s.len(),
{
    if s.len() == 0 {
        0
    } else {
        digits_val(s.drop_last()) * 10 + (s.last() - 48)
    }
}

/// `s` reads as a signed decimal numeral: an optional minus sign ahead of
/// at least one digit.
pub open spec fn is_int_numeral(s: Seq<u8>) -> bool {
    if s.len() > 0 && s[0] == 45 {
        s.len() > 1 && all_digits(s.skip(1))
    } else {
        s.len() > 0 && all_digits(s)
    }
}

/// The integer a signed decimal numeral denotes.
pub open spec fn int_numeral_val(s: Seq<u8>) -> int {
    if s.len() > 0 && s[0] == 45 {
        -digits_val(s.skip(1))
    } else {
        digits_val(s)
    }
}

proof fn lemma_digits_val_nonneg(s: Seq<u8>)
    requires
        all_digits(s),
    ensures
        digits_val(s) >= 0,
    decreases s.len(),
{
    if s.len() > 0 {
        assert(all_digits(s.drop_last()));
        lemma_digits_val_nonneg(s.drop_last());
    }
}

proof fn lemma_digits_val_monotone(s: Seq<u8>, i: int)
    requires
        0 <= i <= s.len(),
        all_digits(s),
    ensures
        digits_val(s) >= digits_val(s.take(i)),
    decreases s.len() - i,
{
    if i == s.len() {
        assert(s.take(i) =~= s);
    } else {
        assert(all_digits(s.take(i)));
        lemma_digits_val_nonneg(s.take(i));
        assert(s.take(i + 1).drop_last() =~= s.take(i));
        assert(s.take(i + 1).last() == s[i]);
        assert(is_digit(s[i]));
        assert(digits_val(s.take(i + 1)) >= digits_val(s.take(i)));
        lemma_digits_val_monotone(s, i + 1);
    }
}

/// The digits of `s` from position `from` on, read as a decimal number;
/// fails on an empty range, a non-digit, or a value above `u64::MAX`.
fn parse_u64_from(s: &Vec<u8>, from: usize) -> (r: Option<u64>)
    requires
        from <= s@.len(),
    ensures
        match r {
            Some(v) => {
                &&& s@.skip(from as int).len() > 0
                &&& all_digits(s@.skip(from as int))
                &&& v as int == digits_val(s@.skip(from as int))
            },
            None => {
                ||| s@.skip(from as int).len() == 0
                ||| !all_digits(s@.skip(from as int))
                ||| digits_val(s@.skip(from as int)) > u64::MAX
            },
        },
{
    let ghost t = s@.skip(from as int);
    if s.len() == from {
        return None;
    }
    let mut acc: u64 = 0;
    let mut i: usize = from;
    while i < s.len()
        invariant
            from <= i <= s@.len(),
            t == s@.skip(from as int),
            all_digits(t.take(i - from)),
            acc as int == digits_val(t.take(i - from)),
        decreases s@.len() - i,
    {
        let b = s[i];
        proof {
            assert(t[i - from] == s@[i as int]);
        }
        if b < 48 || b > 57 {
            proof {
                assert(!is_digit(t[i - from]));
            }
            return None;
        }
        let d = b - 48;
        let ghost k = i - from;
        proof {
            assert(t.take(k + 1).drop_last() =~= t.take(k));
            assert(t.take(k + 1).last() == t[k]);
        }
        let acc10 = match acc.checked_mul(10) {
            Some(x) => x,
            None => {
                proof {
                    if all_digits(t) {
                        lemma_digits_val_nonneg(t.take(k));
                        lemma_digits_val_monotone(t, k + 1);
                    }
                }
                return None;
            },
        };
        let acc1 = match acc10.checked_add(d as u64) {
            Some(x) => x,
            None => {
                proof {
                    if all_digits(t) {
                        lemma_digits_val_nonneg(t.take(k));
                        lemma_digits_val_monotone(t, k + 1);
                    }
                }
                return None;
            },
        };
        acc = acc1;
        i = i + 1;
    }
    proof {
        assert(t.take(s@.len() - from) =~= t);
    }
    Some(acc)
}

/// The digits of `s`, read as a decimal number; fails on an empty input,
/// a non-digit, or a value above `u64::MAX`.
pub fn parse_u64(s: &Vec<u8>) -> (r: Option<u64>)
    ensures
        match r {
            Some(v) => {
                &&& s@.len() > 0
                &&& all_digits(s@)
                &&& v as int == digits_val(s@)
            },
            None => {
                ||| s@.len() == 0
                ||| !all_digits(s@)
                ||| digits_val(s@) > u64::MAX
            },
        },
{
    proof {
        assert(s@.skip(0) =~= s@);
    }
    parse_u64_from(s, 0)
}

/// `s` read as a signed decimal numeral; fails unless `s` is an optional
/// minus sign ahead of digits denoting a value that fits in an `i64`.
pub fn parse_i64(s: &Vec<u8>) -> (r: Option<i64>)
    ensures
        match r {
            Some(v) => is_int_numeral(s@) && v as int == int_numeral_val(s@),
            None => {
                ||| !is_int_numeral(s@)
                ||| int_numeral_val(s@) > i64::MAX
                ||| int_numeral_val(s@) < i64::MIN
            },
        },
{
    if s.len() > 0 && s[0] == 45 {
        match parse_u64_from(s, 1) {
            Some(mag) => {
                if mag <= i64::MAX as u64 {
                    Some(-(mag as i64))
                } else if mag == 9_223_372_036_854_775_808u64 {
                    Some(i64::MIN)
                } else {
                    None
                }
            },
            None => None,
        }
    } else {
        match parse_u64(s) {
            Some(v) => {
                if v <= i64::MAX as u64 {
                    Some(v as i64)
                } else {
                    None
                }
            },
            None => None,
        }
    }
}

} // verus!
