//! The text form of a ciphertext: six bits to a character, over an alphabet
//! of 64 characters in an order of its own, and no padding character.

use vstd::prelude::*;
use vstd::string::StrSliceExecFns;

verus! {

/// The 64 characters, in the order of the values 0 to 63 that they stand for.
pub const ALPHABET: &'static str =
    "LVoJPiCN2R8G90yg+hmFHuacZ1OWMnrsSTXkYpUq/3dlbfKwv6xztjI7DeBE45QA";

/// The character that stands for the six-bit value `v`.
pub open spec fn symbol_of(v: int) -> u8 {
    ALPHABET@[v] as u8
}

proof fn lemma_alphabet()
    ensures
        ALPHABET@.len() == 64,
        ALPHABET.is_ascii(),
{
    reveal_strlit("LVoJPiCN2R8G90yg+hmFHuacZ1OWMnrsSTXkYpUq/3dlbfKwv6xztjI7DeBE45QA");
}

/// No character stands for two values.
pub proof fn lemma_symbols_differ(u: int, v: int)
    requires
        0 <= u < 64,
        0 <= v < 64,
        u != v,
    ensures
        symbol_of(u) != symbol_of(v),
{
    reveal_strlit("LVoJPiCN2R8G90yg+hmFHuacZ1OWMnrsSTXkYpUq/3dlbfKwv6xztjI7DeBE45QA");
}


/// Whether `c` is one of the 64 characters.
pub open spec fn is_symbol(c: u8) -> bool {
    exists|v: int| 0 <= v < 64 && symbol_of(v) == c
}

/// The six-bit value that `c` stands for, where `c` is one of the characters.
pub open spec fn value_of(c: u8) -> int
    recommends
        is_symbol(c),
{
    choose|v: int| 0 <= v < 64 && symbol_of(v) == c
}

/// The character of a value stands for that value.
pub proof fn lemma_value_of_symbol(v: int)
    requires
        0 <= v < 64,
    ensures
        is_symbol(symbol_of(v)),
        value_of(symbol_of(v)) == v,
{
    let w = value_of(symbol_of(v));
    if w != v {
        lemma_symbols_differ(w, v);
    }
}

/// Byte `i` of `data`, or zero past its end.
pub open spec fn byte_or_zero(data: Seq<u8>, i: int) -> int {
    if 0 <= i < data.len() {
        data[i] as int
    } else {
        0
    }
}

/// Six-bit group number `k` of `data`, taken from the high bits down; bits
/// past the end of `data` are zero.
pub open spec fn sextet(data: Seq<u8>, k: int) -> int {
    let g = 3 * (k / 4);
    let a = byte_or_zero(data, g);
    let b = byte_or_zero(data, g + 1);
    let c = byte_or_zero(data, g + 2);
    if k % 4 == 0 {
        a / 4
    } else if k % 4 == 1 {
        (a % 4) * 16 + b / 16
    } else if k % 4 == 2 {
        (b % 16) * 4 + c / 64
    } else {
        c % 64
    }
}

/// How many characters `n` bytes take: one for every six bits begun.
pub open spec fn coded_len(n: nat) -> nat {
    ((4 * n + 2) / 3) as nat
}

/// The text form of `data`.
pub open spec fn coded(data: Seq<u8>) -> Seq<u8> {
    Seq::new(coded_len(data.len()), |k: int| symbol_of(sextet(data, k)))
}

/// The value of character `k` of `text`, or zero past its end.
pub open spec fn value_or_zero(text: Seq<u8>, k: int) -> int {
    if 0 <= k < text.len() {
        value_of(text[k])
    } else {
        0
    }
}

/// Byte number `i` that the characters of `text` spell.
pub open spec fn octet(text: Seq<u8>, i: int) -> u8 {
    let g = 4 * (i / 3);
    let s0 = value_or_zero(text, g);
    let s1 = value_or_zero(text, g + 1);
    let s2 = value_or_zero(text, g + 2);
    let s3 = value_or_zero(text, g + 3);
    if i % 3 == 0 {
        (s0 * 4 + s1 / 16) as u8
    } else if i % 3 == 1 {
        ((s1 % 16) * 16 + s2 / 4) as u8
    } else {
        ((s2 % 4) * 64 + s3) as u8
    }
}

/// How many whole bytes `n` characters spell.
pub open spec fn decoded_len(n: nat) -> nat {
    (3 * n / 4) as nat
}

/// Whether `text` is the text form of some bytes: only characters of the
/// alphabet, a length that some byte count gives, and no stray bits after the
/// last whole byte.
pub open spec fn is_coded(text: Seq<u8>) -> bool {
    &&& text.len() % 4 != 1
    &&& forall|k: int| 0 <= k < text.len() ==> is_symbol(#[trigger] text[k])
    &&& text.len() % 4 == 2 ==> value_of(text[text.len() - 1]) % 16 == 0
    &&& text.len() % 4 == 3 ==> value_of(text[text.len() - 1]) % 4 == 0
}

/// The bytes that `text` spells, where it is the text form of any.
pub open spec fn decoded(text: Seq<u8>) -> Option<Seq<u8>> {
    if is_coded(text) {
        Some(Seq::new(decoded_len(text.len()), |i: int| octet(text, i)))
    } else {
        None
    }
}

/// A six-bit group is a six-bit value.
pub proof fn lemma_sextet_range(data: Seq<u8>, k: int)
    ensures
        0 <= sextet(data, k) < 64,
{
}

#[verifier::rlimit(50)]
proof fn lemma_split(a: int, b: int, c: int)
    requires
        0 <= a < 256,
        0 <= b < 256,
        0 <= c < 256,
    ensures
        ({
            let s0 = a / 4;
            let s1 = (a % 4) * 16 + b / 16;
            let s2 = (b % 16) * 4 + c / 64;
            let s3 = c % 64;
            &&& s0 * 4 + s1 / 16 == a
            &&& (s1 % 16) * 16 + s2 / 4 == b
            &&& (s2 % 4) * 64 + s3 == c
            &&& (b == 0 ==> s1 % 16 == 0)
            &&& (c == 0 ==> s2 % 4 == 0)
        }),
{
}

#[verifier::rlimit(50)]
proof fn lemma_coded_len(n: nat)
    ensures
        n % 3 == 0 ==> coded_len(n) == 4 * (n / 3),
        n % 3 == 1 ==> coded_len(n) == 4 * (n / 3) + 2,
        n % 3 == 2 ==> coded_len(n) == 4 * (n / 3) + 3,
        decoded_len(coded_len(n)) == n,
{
}

#[verifier::rlimit(50)]
proof fn lemma_value_in_coded(data: Seq<u8>, k: int)
    requires
        0 <= k,
    ensures
        value_or_zero(coded(data), k) == sextet(data, k),
        k < coded(data).len() ==> is_symbol(coded(data)[k]),
{
    let n = data.len();
    lemma_coded_len(n);
    if k < coded(data).len() {
        lemma_sextet_range(data, k);
        lemma_value_of_symbol(sextet(data, k));
    } else {
        let g = 3 * (k / 4);
        if k % 4 == 1 {
            assert(g >= n);
        } else if k % 4 == 2 {
            assert(g + 1 >= n);
        } else if k % 4 == 3 {
            assert(g + 2 >= n);
        } else {
            assert(g >= n);
        }
    }
}

#[verifier::rlimit(50)]
proof fn lemma_octet_in_coded(data: Seq<u8>, i: int)
    requires
        0 <= i < data.len(),
    ensures
        octet(coded(data), i) == data[i],
{
    let text = coded(data);
    let q = 4 * (i / 3);
    let g = 3 * (i / 3);
    lemma_value_in_coded(data, q);
    lemma_value_in_coded(data, q + 1);
    lemma_value_in_coded(data, q + 2);
    lemma_value_in_coded(data, q + 3);
    assert(q / 4 == i / 3 && q % 4 == 0);
    assert((q + 1) / 4 == i / 3 && (q + 1) % 4 == 1);
    assert((q + 2) / 4 == i / 3 && (q + 2) % 4 == 2);
    assert((q + 3) / 4 == i / 3 && (q + 3) % 4 == 3);
    let a = byte_or_zero(data, g);
    let b = byte_or_zero(data, g + 1);
    let c = byte_or_zero(data, g + 2);
    lemma_split(a, b, c);
    assert(i == g || i == g + 1 || i == g + 2);
}

/// Decoding the text form of any bytes gives those bytes back.
pub proof fn lemma_decoded_inverts_coded(data: Seq<u8>)
    ensures
        decoded(coded(data)) == Some(data),
{
    let n = data.len();
    let text = coded(data);
    let len = text.len() as int;
    lemma_coded_len(n);
    assert forall|k: int| 0 <= k < len implies is_symbol(#[trigger] text[k]) by {
        lemma_value_in_coded(data, k);
    }
    if len % 4 != 0 {
        let k = len - 1;
        let g = 3 * (k / 4);
        lemma_value_in_coded(data, k);
        lemma_split(byte_or_zero(data, g), byte_or_zero(data, g + 1), byte_or_zero(data, g + 2));
        if len % 4 == 2 {
            assert(k % 4 == 1 && g + 1 == n);
        } else {
            assert(k % 4 == 2 && g + 2 == n);
        }
    }
    assert(is_coded(text));
    let back = Seq::new(decoded_len(text.len()), |i: int| octet(text, i));
    assert forall|i: int| 0 <= i < n implies back[i] == data[i] by {
        lemma_octet_in_coded(data, i);
    }
    assert(back =~= data);
}

/// A character of the alphabet is the character of its value.
pub proof fn lemma_symbol_of_value(c: u8)
    requires
        is_symbol(c),
    ensures
        0 <= value_of(c) < 64,
        symbol_of(value_of(c)) == c,
{
}

#[verifier::rlimit(50)]
proof fn lemma_regroup(s0: int, s1: int, s2: int, s3: int)
    requires
        0 <= s0 < 64,
        0 <= s1 < 64,
        0 <= s2 < 64,
        0 <= s3 < 64,
    ensures
        ({
            let a = s0 * 4 + s1 / 16;
            let b = (s1 % 16) * 16 + s2 / 4;
            let c = (s2 % 4) * 64 + s3;
            &&& 0 <= a < 256
            &&& 0 <= b < 256
            &&& 0 <= c < 256
            &&& a / 4 == s0
            &&& (a % 4) * 16 + b / 16 == s1
            &&& a % 4 == s1 / 16
            &&& (b % 16) * 4 + c / 64 == s2
            &&& b % 16 == s2 / 4
            &&& c % 64 == s3
        }),
{
}

proof fn lemma_group_values(text: Seq<u8>, q: int)
    requires
        is_coded(text),
        0 <= q < text.len(),
        q % 4 == 0,
    ensures
        0 <= value_or_zero(text, q) < 64,
        0 <= value_or_zero(text, q + 1) < 64,
        0 <= value_or_zero(text, q + 2) < 64,
        0 <= value_or_zero(text, q + 3) < 64,
        q + 1 < text.len(),
        q + 2 == text.len() ==> value_or_zero(text, q + 1) % 16 == 0,
        q + 3 == text.len() ==> value_or_zero(text, q + 2) % 4 == 0,
{
    lemma_symbol_of_value(text[q]);
    lemma_symbol_of_value(text[q + 1]);
    if q + 2 < text.len() {
        lemma_symbol_of_value(text[q + 2]);
    }
    if q + 3 < text.len() {
        lemma_symbol_of_value(text[q + 3]);
    }
}

/// Coding the bytes that a text spells gives that text back.
pub proof fn lemma_coded_inverts_decoded(text: Seq<u8>)
    requires
        is_coded(text),
    ensures
        coded(decoded(text)->Some_0) == text,
{
    let data = decoded(text)->Some_0;
    let len = text.len() as int;
    let n = data.len() as int;
    assert(n == 3 * len / 4);
    assert(coded_len(n as nat) == len);
    let again = coded(data);
    assert forall|k: int| 0 <= k < len implies again[k] == text[k] by {
        let g = 3 * (k / 4);
        let q = 4 * (k / 4);
        lemma_group_values(text, q);
        let s0 = value_or_zero(text, q);
        let s1 = value_or_zero(text, q + 1);
        let s2 = value_or_zero(text, q + 2);
        let s3 = value_or_zero(text, q + 3);
        lemma_regroup(s0, s1, s2, s3);
        assert(4 * (g / 3) == q);
        assert(4 * ((g + 1) / 3) == q);
        assert(4 * ((g + 2) / 3) == q);
        assert(byte_or_zero(data, g) == s0 * 4 + s1 / 16);
        assert(byte_or_zero(data, g + 1) == if g + 1 < n {
            (s1 % 16) * 16 + s2 / 4
        } else {
            0
        });
        assert(byte_or_zero(data, g + 2) == if g + 2 < n {
            (s2 % 4) * 64 + s3
        } else {
            0
        });
        assert(sextet(data, k) == value_or_zero(text, k));
        lemma_symbol_of_value(text[k]);
    }
    assert(again =~= text);
}

/// The character for a six-bit value.
pub fn symbol(v: u8) -> (c: u8)
    requires
        v < 64,
    ensures
        c == symbol_of(v as int),
        c < 128,
{
    proof {
        lemma_alphabet();
    }
    ALPHABET.get_ascii(v as usize)
}

/// The six-bit value of a character; `None` where it is not in the alphabet.
pub fn value(c: u8) -> (r: Option<u8>)
    ensures
        r is Some <==> is_symbol(c),
        r matches Some(v) ==> v < 64 && v as int == value_of(c),
{
    let mut v: u8 = 0;
    while v < 64
        invariant
            v <= 64,
            forall|u: int| 0 <= u < v ==> symbol_of(u) != c,
        decreases 64 - v,
    {
        if symbol(v) == c {
            proof {
                let w = value_of(c);
                if w != v as int {
                    lemma_symbols_differ(w, v as int);
                }
            }
            return Some(v);
        }
        v = v + 1;
    }
    None
}

fn byte_at(data: &[u8], i: usize) -> (b: u8)
    ensures
        b as int == byte_or_zero(data@, i as int),
{
    if i < data.len() {
        data[i]
    } else {
        0
    }
}

fn sextet_at(data: &[u8], k: usize) -> (s: u8)
    requires
        3 * (k / 4) + 2 <= usize::MAX,
    ensures
        s as int == sextet(data@, k as int),
        s < 64,
{
    let g: usize = 3 * (k / 4);
    let a: u8 = byte_at(data, g);
    let b: u8 = byte_at(data, g + 1);
    let c: u8 = byte_at(data, g + 2);
    if k % 4 == 0 {
        a / 4
    } else if k % 4 == 1 {
        (a % 4) * 16 + b / 16
    } else if k % 4 == 2 {
        (b % 16) * 4 + c / 64
    } else {
        c % 64
    }
}

/// Writes bytes in their text form.
pub fn encode(data: &[u8]) -> (text: Vec<u8>)
    requires
        4 * data.len() + 2 <= usize::MAX,
    ensures
        text@ == coded(data@),
        forall|k: int| 0 <= k < text@.len() ==> text@[k] < 128,
{
    let count: usize = (4 * data.len() + 2) / 3;
    let mut text: Vec<u8> = Vec::with_capacity(count);
    let mut k: usize = 0;
    while k < count
        invariant
            k <= count,
            count == coded_len(data@.len()),
            4 * data.len() + 2 <= usize::MAX,
            text@ == coded(data@).subrange(0, k as int),
            forall|j: int| 0 <= j < text@.len() ==> text@[j] < 128,
        decreases count - k,
    {
        let s = sextet_at(data, k);
        text.push(symbol(s));
        k = k + 1;
        assert(text@ =~= coded(data@).subrange(0, k as int));
    }
    assert(text@ =~= coded(data@));
    text
}

fn value_at(text: &[u8], k: usize) -> (r: Option<u8>)
    ensures
        r is None <==> (k < text.len() && !is_symbol(text@[k as int])),
        r matches Some(v) ==> v < 64 && v as int == value_or_zero(text@, k as int),
{
    if k < text.len() {
        value(text[k])
    } else {
        Some(0)
    }
}

/// Reads bytes back from their text form. `None` where `text` is the text
/// form of no bytes.
pub fn decode(text: &[u8]) -> (out: Option<Vec<u8>>)
    ensures
        out is Some <==> decoded(text@) is Some,
        out matches Some(data) ==> Some(data@) == decoded(text@),
{
    let len: usize = text.len();
    if len % 4 == 1 {
        return None;
    }
    let mut k: usize = 0;
    while k < len
        invariant
            k <= len,
            len == text.len(),
            forall|j: int| 0 <= j < k ==> is_symbol(#[trigger] text@[j]),
        decreases len - k,
    {
        let v = value(text[k]);
        if v.is_none() {
            return None;
        }
        k = k + 1;
    }
    if len % 4 != 0 {
        let last: u8 = value(text[len - 1]).unwrap();
        if (len % 4 == 2 && last % 16 != 0) || (len % 4 == 3 && last % 4 != 0) {
            return None;
        }
    }
    let count: usize = len / 4 * 3 + (if len % 4 == 0 {
        0
    } else {
        len % 4 - 1
    });
    assert(count == decoded_len(len as nat));
    assert(is_coded(text@));
    let mut out: Vec<u8> = Vec::with_capacity(count);
    let mut i: usize = 0;
    while i < count
        invariant
            i <= count,
            len == text.len(),
            count == decoded_len(len as nat),
            is_coded(text@),
            out@ == decoded(text@)->Some_0.subrange(0, i as int),
        decreases count - i,
    {
        let g: usize = 4 * (i / 3);
        let s0: u8 = value_at(text, g).unwrap();
        let s1: u8 = value_at(text, g + 1).unwrap();
        let s2: u8 = value_at(text, g + 2).unwrap();
        let s3: u8 = value_at(text, g + 3).unwrap();
        let b: u8 = if i % 3 == 0 {
            ((s0 as u32 * 4 + s1 as u32 / 16) % 256) as u8
        } else if i % 3 == 1 {
            (s1 % 16) * 16 + s2 / 4
        } else {
            (s2 % 4) * 64 + s3
        };
        assert(b == octet(text@, i as int));
        out.push(b);
        i = i + 1;
        assert(out@ =~= decoded(text@)->Some_0.subrange(0, i as int));
    }
    assert(out@ =~= decoded(text@)->Some_0);
    Some(out)
}

} // verus!
