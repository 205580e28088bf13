//! Lowercase hexadecimal encoding of byte sequences, used to turn a digest
//! into an object identifier.

use crate::textutil::ascii_seq;
use vstd::prelude::*;

verus! {

/// The ASCII byte of the lowercase hex digit for `n` (meaningful for n < 16).
pub open spec fn hex_digit(n: u8) -> u8 {
    if n < 10 {
        (48 + n) as u8
    } else {
        (87 + n) as u8
    }
}

/// The lowercase hex encoding of `s`: two digit bytes per input byte, high
/// nibble first.
pub open spec fn hex_bytes(s: Seq<u8>) -> Seq<u8> {
    Seq::new(
        s.len() * 2,
        |i: int|
            if i % 2 == 0 {
                hex_digit(s[i / 2] / 16)
            } else {
                hex_digit(s[i / 2] % 16)
            },
    )
}

/// Hex digit bytes are ASCII.
pub proof fn lemma_hex_bytes_ascii(s: Seq<u8>)
    ensures
        ascii_seq(hex_bytes(s)),
{
    assert forall|i: int| 0 <= i < hex_bytes(s).len() implies #[trigger] hex_bytes(s)[i]
        < 128 by {
        assert(s[i / 2] / 16 < 16);
        assert(s[i / 2] % 16 < 16);
    }
}

/// Encodes `v` in lowercase hexadecimal, two digits per byte.
pub fn hex_encode(v: &Vec<u8>) -> (r: Vec<u8>)
    ensures
        r@ == hex_bytes(v@),
{
    let mut out: Vec<u8> = Vec::new();
    let mut i: usize = 0;
    while i < v.len()
        invariant
            0 <= i <= v@.len(),
            out@.len() == 2 * i,
            forall|k: int| 0 <= k < out@.len() ==> out@[k] == hex_bytes(v@)[k],
        decreases v@.len() - i,
    {
        let b = v[i];
        let hi = b / 16;
        let lo = b % 16;
        let hi_digit = if hi < 10 {
            48 + hi
        } else {
            87 + hi
        };
        let lo_digit = if lo < 10 {
            48 + lo
        } else {
            87 + lo
        };
        out.push(hi_digit);
        out.push(lo_digit);
        assert((2 * i as int) % 2 == 0 && (2 * i as int) / 2 == i as int);
        assert((2 * i as int + 1) % 2 == 1 && (2 * i as int + 1) / 2 == i as int);
        i = i + 1;
    }
    assert(out@ =~= hex_bytes(v@));
    out
}

} // verus!
