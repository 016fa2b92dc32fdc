//! Lowercase hexadecimal: two characters for a byte, the high half first.

use crate::text::all_ascii;
use vstd::prelude::*;

verus! {

/// The character for a half-byte: `0` to `9`, then `a` to `f`.
pub open spec fn hex_digit_of(n: int) -> u8 {
    if n < 10 {
        (48 + n) as u8
    } else {
        (87 + n) as u8
    }
}

/// The half-byte that position `i` of the text shows.
pub open spec fn nibble(bytes: Seq<u8>, i: int) -> int {
    if i % 2 == 0 {
        bytes[i / 2] as int / 16
    } else {
        bytes[i / 2] as int % 16
    }
}

/// The hexadecimal text of `bytes`.
pub open spec fn hex_of(bytes: Seq<u8>) -> Seq<u8> {
    Seq::new(2 * bytes.len(), |i: int| hex_digit_of(nibble(bytes, i)))
}

/// Whether `c` is one of `0` to `9` and `a` to `f`.
pub open spec fn is_hex_char(c: u8) -> bool {
    (48 <= c <= 57) || (97 <= c <= 102)
}

/// Hexadecimal text holds hexadecimal characters only, so it is ASCII.
pub proof fn lemma_hex_chars(bytes: Seq<u8>)
    ensures
        forall|i: int| 0 <= i < hex_of(bytes).len() ==> is_hex_char(#[trigger] hex_of(bytes)[i]),
        all_ascii(hex_of(bytes)),
{
}

/// Different bytes have different hexadecimal text.
pub proof fn lemma_hex_injective(a: Seq<u8>, b: Seq<u8>)
    requires
        hex_of(a) == hex_of(b),
    ensures
        a == b,
{
    assert(hex_of(a).len() == 2 * a.len());
    assert(hex_of(b).len() == 2 * b.len());
    assert forall|i: int| 0 <= i < a.len() implies a[i] == b[i] by {
        let (ah, al) = (a[i] as int / 16, a[i] as int % 16);
        let (bh, bl) = (b[i] as int / 16, b[i] as int % 16);
        assert(nibble(a, 2 * i) == ah && nibble(a, 2 * i + 1) == al);
        assert(nibble(b, 2 * i) == bh && nibble(b, 2 * i + 1) == bl);
        assert(hex_of(a)[2 * i] == hex_digit_of(ah));
        assert(hex_of(b)[2 * i] == hex_digit_of(bh));
        assert(hex_of(a)[2 * i + 1] == hex_digit_of(al));
        assert(hex_of(b)[2 * i + 1] == hex_digit_of(bl));
        assert(ah == bh && al == bl);
    }
    assert(a =~= b);
}

/// The character for a half-byte.
pub fn hex_digit(n: u8) -> (c: u8)
    requires
        n < 16,
    ensures
        c == hex_digit_of(n as int),
        is_hex_char(c),
{
    if n < 10 {
        48 + n
    } else {
        87 + n
    }
}

/// Writes bytes as lowercase hexadecimal text.
pub fn to_hex(bytes: &[u8]) -> (out: Vec<u8>)
    ensures
        out@ == hex_of(bytes@),
{
    let mut out: Vec<u8> = Vec::new();
    let mut i: usize = 0;
    while i < bytes.len()
        invariant
            i <= bytes.len(),
            out@ == hex_of(bytes@).subrange(0, 2 * i),
        decreases bytes.len() - i,
    {
        let b: u8 = bytes[i];
        out.push(hex_digit(b / 16));
        out.push(hex_digit(b % 16));
        i = i + 1;
        assert(out@ =~= hex_of(bytes@).subrange(0, 2 * i));
    }
    assert(out@ =~= hex_of(bytes@));
    out
}

} // verus!
