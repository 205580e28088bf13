//! ASCII decimal rendering and parsing of non-negative integers, used for the
//! length field of an object's canonical frame.

use vstd::arithmetic::div_mod::lemma_fundamental_div_mod;
use vstd::arithmetic::mul::lemma_mul_inequality;
use vstd::prelude::*;

verus! {

/// Whether `b` is an ASCII decimal digit.
pub open spec fn is_digit(b: u8) -> bool {
    48 <= b <= 57
}

/// Whether every byte of `s` is an ASCII decimal digit.
pub open spec fn is_digit_seq(s: Seq<u8>) -> bool {
    forall|i: int| 0 <= i < s.len() ==> is_digit(#[trigger] s[i])
}

/// Numeric value of one digit byte (0 for bytes below '0', so that the
/// function is total).
pub open spec fn digit_val(b: u8) -> nat {
    if b >= 48 {
        (b - 48) as nat
    } else {
        0
    }
}

/// The decimal digit bytes of `n`, most significant first, without leading
/// zeros.
pub open spec fn dec_digits(n: nat) -> Seq<u8>
    decreases n,
{
    if n < 10 {
        seq![(48 + n) as u8]
    } else {
        dec_digits(n / 10) + seq![(48 + n % 10) as u8]
    }
}

/// The numeric value denoted by a sequence of digit bytes (leading zeros
/// allowed; the empty sequence denotes 0).
pub open spec fn dec_value(s: Seq<u8>) -> nat
    decreases s.len(),
{
    if s.len() == 0 {
        0
    } else {
        dec_value(s.drop_last()) * 10 + digit_val(s.last())
    }
}

/// Every byte that `dec_digits` produces is a digit.
pub proof fn lemma_dec_digits_are_digits(n: nat)
    ensures
        is_digit_seq(dec_digits(n)),
        dec_digits(n).len() > 0,
    decreases n,
{
    if n < 10 {
    } else {
        lemma_dec_digits_are_digits(n / 10);
    }
}

/// Rendering and evaluation are inverse: the digits of `n` denote `n`.
pub proof fn lemma_dec_digits_value(n: nat)
    ensures
        dec_value(dec_digits(n)) == n,
    decreases n,
{
    if n < 10 {
        let s = dec_digits(n);
        assert(s =~= seq![(48 + n) as u8]);
        assert(s.drop_last() =~= Seq::<u8>::empty());
        assert(s.last() == (48 + n) as u8);
        assert(dec_value(s) == dec_value(s.drop_last()) * 10 + digit_val(s.last()));
        assert(digit_val((48 + n) as u8) == n);
    } else {
        lemma_dec_digits_value(n / 10);
        let s = dec_digits(n);
        assert(s =~= dec_digits(n / 10) + seq![(48 + n % 10) as u8]);
        assert(s.drop_last() =~= dec_digits(n / 10));
        assert(s.last() == (48 + n % 10) as u8);
        assert(dec_value(s) == dec_value(s.drop_last()) * 10 + digit_val(s.last()));
        assert(digit_val((48 + n % 10) as u8) == n % 10);
        lemma_fundamental_div_mod(n as int, 10);
    }
}

/// Evaluating a concatenation: the left part is scaled by a power of ten, so
/// the value of the whole is at least the value of any prefix.
pub proof fn lemma_dec_value_prefix_le(s: Seq<u8>, t: Seq<u8>)
    ensures
        dec_value(s + t) >= dec_value(s),
    decreases t.len(),
{
    if t.len() == 0 {
        assert(s + t =~= s);
    } else {
        lemma_dec_value_prefix_le(s, t.drop_last());
        assert((s + t).drop_last() =~= s + t.drop_last());
        assert(dec_value(s + t) == dec_value(s + t.drop_last()) * 10 + digit_val((s + t).last()));
        lemma_mul_inequality(dec_value(s) as int, dec_value(s + t.drop_last()) as int, 10);
    }
}

/// Renders `n` as ASCII decimal digits, most significant first, without
/// leading zeros.
pub fn render_decimal(n: u64) -> (r: Vec<u8>)
    ensures
        r@ == dec_digits(n as nat),
    decreases n,
{
    if n < 10 {
        let mut v: Vec<u8> = Vec::new();
        v.push(48 + (n as u8));
        assert(v@ =~= dec_digits(n as nat));
        v
    } else {
        let mut v = render_decimal(n / 10);
        v.push(48 + ((n % 10) as u8));
        assert(v@ =~= dec_digits(n as nat));
        v
    }
}

/// Parses ASCII decimal digits into a `usize`. Returns `Some` exactly when
/// the input is non-empty, consists of digits only, and its value fits.
pub fn parse_decimal(s: &Vec<u8>) -> (r: Option<usize>)
    ensures
        r matches Some(v) ==> s@.len() > 0 && is_digit_seq(s@) && v as nat == dec_value(s@),
        r is None ==> s@.len() == 0 || !is_digit_seq(s@) || dec_value(s@) > usize::MAX as nat,
{
    if s.len() == 0 {
        return None;
    }
    let mut acc: usize = 0;
    let mut i: usize = 0;
    while i < s.len()
        invariant
            0 <= i <= s@.len(),
            s@.len() > 0,
            acc as nat == dec_value(s@.subrange(0, i as int)),
            is_digit_seq(s@.subrange(0, i as int)),
        decreases s@.len() - i,
    {
        let b = s[i];
        if b < 48 || b > 57 {
            assert(!is_digit(s@[i as int]));
            return None;
        }
        let step = match acc.checked_mul(10) {
            Some(m) => m.checked_add((b - 48) as usize),
            None => None,
        };
        proof {
            let pref = s@.subrange(0, i as int);
            let pref1 = s@.subrange(0, i + 1 as int);
            assert(pref1.drop_last() =~= pref);
            assert(dec_value(pref1) == dec_value(pref) * 10 + digit_val(s@[i as int]));
        }
        match step {
            Some(v) => {
                acc = v;
            },
            None => {
                proof {
                    let pref1 = s@.subrange(0, i + 1 as int);
                    assert(dec_value(pref1) > usize::MAX as nat);
                    assert(s@ =~= pref1 + s@.subrange(i + 1 as int, s@.len() as int));
                    lemma_dec_value_prefix_le(pref1, s@.subrange(i + 1 as int, s@.len() as int));
                }
                return None;
            },
        }
        i = i + 1;
    }
    assert(s@.subrange(0, s@.len() as int) =~= s@);
    Some(acc)
}

/// Whether `c` is an ASCII decimal digit.
pub open spec fn is_digit_char(c: char) -> bool {
    48 <= c as u32 <= 57
}

/// Whether every character of `s` is an ASCII decimal digit.
pub open spec fn is_digit_chars(s: Seq<char>) -> bool {
    forall|i: int| 0 <= i < s.len() ==> is_digit_char(#[trigger] s[i])
}

/// Numeric value of one digit character (0 below '0', keeping it total).
pub open spec fn char_digit_val(c: char) -> nat {
    if c as u32 >= 48 {
        (c as u32 - 48) as nat
    } else {
        0
    }
}

/// The numeric value denoted by a sequence of digit characters.
pub open spec fn dec_value_chars(s: Seq<char>) -> nat
    decreases s.len(),
{
    if s.len() == 0 {
        0
    } else {
        dec_value_chars(s.drop_last()) * 10 + char_digit_val(s.last())
    }
}

/// The value of a character sequence is at least the value of any prefix.
pub proof fn lemma_dec_value_chars_prefix_le(s: Seq<char>, t: Seq<char>)
    ensures
        dec_value_chars(s + t) >= dec_value_chars(s),
    decreases t.len(),
{
    if t.len() == 0 {
        assert(s + t =~= s);
    } else {
        lemma_dec_value_chars_prefix_le(s, t.drop_last());
        assert((s + t).drop_last() =~= s + t.drop_last());
        assert(dec_value_chars(s + t) == dec_value_chars(s + t.drop_last()) * 10 + char_digit_val(
            (s + t).last(),
        ));
        lemma_mul_inequality(
            dec_value_chars(s) as int,
            dec_value_chars(s + t.drop_last()) as int,
            10,
        );
    }
}

/// What a string denotes as a signed 64-bit decimal integer: an optional
/// leading minus or plus sign, then at least one digit, with the value in
/// range.
pub open spec fn parse_i64_spec(s: Seq<char>) -> Option<int> {
    if s.len() > 0 && s[0] == '-' {
        let ds = s.subrange(1, s.len() as int);
        if ds.len() > 0 && is_digit_chars(ds) && dec_value_chars(ds) <= 0x8000000000000000 {
            Some(-(dec_value_chars(ds) as int))
        } else {
            None
        }
    } else if s.len() > 0 && s[0] == '+' {
        let ds = s.subrange(1, s.len() as int);
        if ds.len() > 0 && is_digit_chars(ds) && dec_value_chars(ds) <= 0x7fffffffffffffff {
            Some(dec_value_chars(ds) as int)
        } else {
            None
        }
    } else if s.len() > 0 && is_digit_chars(s) && dec_value_chars(s) <= 0x7fffffffffffffff {
        Some(dec_value_chars(s) as int)
    } else {
        None
    }
}

/// A prefix too large for `u64` makes the whole suffix-from-`a` too large.
proof fn lemma_dec_chars_overflow(s: Seq<char>, a: int, b: int)
    requires
        0 <= a <= b <= s.len(),
        dec_value_chars(s.subrange(a, b)) > u64::MAX as nat,
    ensures
        dec_value_chars(s.subrange(a, s.len() as int)) > u64::MAX as nat,
{
    assert(s.subrange(a, s.len() as int) =~= s.subrange(a, b) + s.subrange(b, s.len() as int));
    lemma_dec_value_chars_prefix_le(s.subrange(a, b), s.subrange(b, s.len() as int));
}

/// Accumulates the value of the digit characters of `s` from `start` on,
/// reporting whether a non-digit or a value beyond `u64` was hit.
fn digit_chars_value(s: &str, start: usize) -> (r: Option<u64>)
    requires
        start <= s@.len(),
    ensures
        r matches Some(v) ==> is_digit_chars(s@.subrange(start as int, s@.len() as int)) && v
            as nat == dec_value_chars(s@.subrange(start as int, s@.len() as int)),
        r is None ==> !is_digit_chars(s@.subrange(start as int, s@.len() as int))
            || dec_value_chars(s@.subrange(start as int, s@.len() as int)) > u64::MAX as nat,
{
    let n = s.unicode_len();
    let ghost full = s@.subrange(start as int, s@.len() as int);
    let mut acc: u64 = 0;
    let mut i: usize = start;
    while i < n
        invariant
            start <= i <= n,
            n == s@.len(),
            acc as nat == dec_value_chars(s@.subrange(start as int, i as int)),
            is_digit_chars(s@.subrange(start as int, i as int)),
        decreases n - i,
    {
        let c = s.get_char(i);
        let u = c as u32;
        if u < 48 || u > 57 {
            proof {
                let full = s@.subrange(start as int, s@.len() as int);
                assert(full[i - start as int] == s@[i as int]);
                assert(!is_digit_char(full[i - start as int]));
            }
            return None;
        }
        let step = match acc.checked_mul(10) {
            Some(m) => m.checked_add((u - 48) as u64),
            None => None,
        };
        proof {
            let pref = s@.subrange(start as int, i as int);
            let pref1 = s@.subrange(start as int, i + 1 as int);
            assert(pref1.drop_last() =~= pref);
            assert(pref1.last() == s@[i as int]);
            assert(dec_value_chars(pref1) == dec_value_chars(pref) * 10 + char_digit_val(
                s@[i as int],
            ));
        }
        match step {
            Some(v) => {
                acc = v;
            },
            None => {
                proof {
                    lemma_dec_chars_overflow(s@, start as int, i + 1 as int);
                }
                return None;
            },
        }
        i = i + 1;
    }
    Some(acc)
}

/// Parses a signed decimal integer, accepting exactly the strings and values
/// that `parse_i64_spec` accepts.
pub fn parse_i64(s: &str) -> (r: Option<i64>)
    ensures
        r matches Some(v) ==> parse_i64_spec(s@) == Some(v as int),
        r is None ==> parse_i64_spec(s@) is None,
{
    let n = s.unicode_len();
    if n == 0 {
        return None;
    }
    let first = s.get_char(0);
    let neg = first == '-';
    let signed = neg || first == '+';
    let start: usize = if signed {
        1
    } else {
        0
    };
    if n == start {
        return None;
    }
    let ghost ds = if signed {
        s@.subrange(1, s@.len() as int)
    } else {
        s@
    };
    assert(ds =~= s@.subrange(start as int, s@.len() as int));
    let acc = match digit_chars_value(s, start) {
        Some(acc) => acc,
        None => {
            return None;
        },
    };
    if neg {
        if acc > 9223372036854775808u64 {
            return None;
        }
        if acc == 9223372036854775808u64 {
            return Some(i64::MIN);
        }
        Some(-(acc as i64))
    } else {
        if acc > 9223372036854775807u64 {
            return None;
        }
        Some(acc as i64)
    }
}

} // verus!
