//! The block cipher that hides the credential payload.
//!
//! A block is two 32-bit words, the key four. One cycle is two Feistel
//! half-rounds: each adds to one word a mix of the other word, the running
//! sum and a key word picked by bits of that sum. The number of cycles is a
//! parameter, so that a deployment can pin it.
//!
//! A message of any length is framed before it is enciphered: one leading
//! byte says how many bytes of the last block are in use, and zero bytes fill
//! that block. Blocks are enciphered one by one.

use vstd::prelude::*;

verus! {

/// What the running sum grows by in every cycle.
pub const DELTA: u32 = 0x9E37_79B9;

/// Two 32-bit words: the unit that the cipher works on.
#[derive(Clone, Copy, Debug, PartialEq, Eq, Structural)]
pub struct Block {
    pub v0: u32,
    pub v1: u32,
}

/// The four key words.
#[derive(Clone, Copy, Debug, PartialEq, Eq, Structural)]
pub struct Key {
    pub k0: u32,
    pub k1: u32,
    pub k2: u32,
    pub k3: u32,
}

impl Key {
    /// The key word that the two low bits of `index` pick.
    pub open spec fn select(self, index: u32) -> u32 {
        if index == 0 {
            self.k0
        } else if index == 1 {
            self.k1
        } else if index == 2 {
            self.k2
        } else {
            self.k3
        }
    }

    /// The key word at `index`; any index above 2 gives the last word.
    pub fn word(&self, index: u32) -> (k: u32)
        ensures
            k == self.select(index),
    {
        if index == 0 {
            self.k0
        } else if index == 1 {
            self.k1
        } else if index == 2 {
            self.k2
        } else {
            self.k3
        }
    }
}

/// What one half-round adds to a word: the other word `v` shifted and folded
/// onto itself, crossed with the sum plus a key word.
pub open spec fn mixed(v: u32, sum: u32, k: u32) -> u32 {
    (((v << 4u32) ^ (v >> 5u32)).wrapping_add(v)) ^ (sum.wrapping_add(k))
}

/// The running sum before cycle number `i` (counted from 0).
pub open spec fn sum_at(i: nat) -> u32
    decreases i,
{
    if i == 0 {
        0u32
    } else {
        sum_at((i - 1) as nat).wrapping_add(DELTA)
    }
}

/// One cycle on `b`, entered with running sum `sum`.
pub open spec fn cycled(b: Block, key: Key, sum: u32) -> Block {
    let v0 = b.v0.wrapping_add(mixed(b.v1, sum, key.select(sum & 3u32)));
    let next = sum.wrapping_add(DELTA);
    let v1 = b.v1.wrapping_add(mixed(v0, next, key.select((next >> 11u32) & 3u32)));
    Block { v0, v1 }
}

/// One cycle undone: the block that `cycled` with the same `sum` maps to `b`.
pub open spec fn uncycled(b: Block, key: Key, sum: u32) -> Block {
    let next = sum.wrapping_add(DELTA);
    let v1 = b.v1.wrapping_sub(mixed(b.v0, next, key.select((next >> 11u32) & 3u32)));
    let v0 = b.v0.wrapping_sub(mixed(v1, sum, key.select(sum & 3u32)));
    Block { v0, v1 }
}

/// `b` after `rounds` cycles.
pub open spec fn enciphered(b: Block, key: Key, rounds: nat) -> Block
    decreases rounds,
{
    if rounds == 0 {
        b
    } else {
        cycled(enciphered(b, key, (rounds - 1) as nat), key, sum_at((rounds - 1) as nat))
    }
}

/// `b` with `rounds` cycles undone, the last one first.
pub open spec fn deciphered(b: Block, key: Key, rounds: nat) -> Block
    decreases rounds,
{
    if rounds == 0 {
        b
    } else {
        deciphered(uncycled(b, key, sum_at((rounds - 1) as nat)), key, (rounds - 1) as nat)
    }
}

/// Undoing a cycle after doing it, with the same sum, gives the block back.
pub proof fn lemma_uncycled_inverts_cycled(b: Block, key: Key, sum: u32)
    ensures
        uncycled(cycled(b, key, sum), key, sum) == b,
{
}

/// Deciphering inverts enciphering, for every key and every number of cycles.
pub proof fn lemma_deciphered_inverts_enciphered(b: Block, key: Key, rounds: nat)
    ensures
        deciphered(enciphered(b, key, rounds), key, rounds) == b,
    decreases rounds,
{
    if rounds > 0 {
        let before = enciphered(b, key, (rounds - 1) as nat);
        lemma_uncycled_inverts_cycled(before, key, sum_at((rounds - 1) as nat));
        lemma_deciphered_inverts_enciphered(b, key, (rounds - 1) as nat);
    }
}

fn mix(v: u32, sum: u32, k: u32) -> (m: u32)
    ensures
        m == mixed(v, sum, k),
{
    (((v << 4u32) ^ (v >> 5u32)).wrapping_add(v)) ^ (sum.wrapping_add(k))
}

/// Runs `rounds` cycles of the cipher on one block.
pub fn encipher(block: Block, key: &Key, rounds: u32) -> (out: Block)
    ensures
        out == enciphered(block, *key, rounds as nat),
{
    let mut v0: u32 = block.v0;
    let mut v1: u32 = block.v1;
    let mut sum: u32 = 0;
    let mut i: u32 = 0;
    while i < rounds
        invariant
            i <= rounds,
            sum == sum_at(i as nat),
            (Block { v0, v1 }) == enciphered(block, *key, i as nat),
        decreases rounds - i,
    {
        v0 = v0.wrapping_add(mix(v1, sum, key.word(sum & 3u32)));
        sum = sum.wrapping_add(DELTA);
        v1 = v1.wrapping_add(mix(v0, sum, key.word((sum >> 11u32) & 3u32)));
        i = i + 1;
    }
    Block { v0, v1 }
}

/// Undoes `rounds` cycles of the cipher on one block.
pub fn decipher(block: Block, key: &Key, rounds: u32) -> (out: Block)
    ensures
        out == deciphered(block, *key, rounds as nat),
{
    let mut sum: u32 = 0;
    let mut n: u32 = 0;
    while n < rounds
        invariant
            n <= rounds,
            sum == sum_at(n as nat),
        decreases rounds - n,
    {
        sum = sum.wrapping_add(DELTA);
        n = n + 1;
    }
    let mut v0: u32 = block.v0;
    let mut v1: u32 = block.v1;
    let mut i: u32 = rounds;
    while i > 0
        invariant
            i <= rounds,
            sum == sum_at(i as nat),
            deciphered(Block { v0, v1 }, *key, i as nat) == deciphered(
                block,
                *key,
                rounds as nat,
            ),
        decreases i,
    {
        let before: u32 = sum.wrapping_sub(DELTA);
        v1 = v1.wrapping_sub(mix(v0, sum, key.word((sum >> 11u32) & 3u32)));
        v0 = v0.wrapping_sub(mix(v1, before, key.word(before & 3u32)));
        sum = before;
        i = i - 1;
    }
    Block { v0, v1 }
}

/// The word whose bytes, lowest first, are `b0` to `b3`.
pub open spec fn word_of(b0: u8, b1: u8, b2: u8, b3: u8) -> u32 {
    (b0 as int + 256 * (b1 as int) + 65536 * (b2 as int) + 16777216 * (b3 as int)) as u32
}

/// Byte number `i` of `w`, lowest first.
pub open spec fn byte_of(w: u32, i: int) -> u8 {
    if i == 0 {
        (w as int % 256) as u8
    } else if i == 1 {
        ((w as int / 256) % 256) as u8
    } else if i == 2 {
        ((w as int / 65536) % 256) as u8
    } else {
        (w as int / 16777216) as u8
    }
}

/// Block number `j` of `data`, read as two little-endian words.
pub open spec fn block_at(data: Seq<u8>, j: int) -> Block {
    Block {
        v0: word_of(data[8 * j], data[8 * j + 1], data[8 * j + 2], data[8 * j + 3]),
        v1: word_of(data[8 * j + 4], data[8 * j + 5], data[8 * j + 6], data[8 * j + 7]),
    }
}

/// Byte number `i` (0 to 7) of a block written as two little-endian words.
pub open spec fn block_byte(b: Block, i: int) -> u8 {
    if i < 4 {
        byte_of(b.v0, i)
    } else {
        byte_of(b.v1, i - 4)
    }
}

/// The eight bytes of a block.
pub open spec fn block_bytes(b: Block) -> Seq<u8> {
    Seq::new(8, |i: int| block_byte(b, i))
}

/// Every block of `data` enciphered in place. Meant for a whole number of
/// blocks.
pub open spec fn enciphered_bytes(data: Seq<u8>, key: Key, rounds: nat) -> Seq<u8> {
    Seq::new(
        data.len(),
        |i: int| block_byte(enciphered(block_at(data, i / 8), key, rounds), i % 8),
    )
}

/// Every block of `data` deciphered in place. Meant for a whole number of
/// blocks.
pub open spec fn deciphered_bytes(data: Seq<u8>, key: Key, rounds: nat) -> Seq<u8> {
    Seq::new(
        data.len(),
        |i: int| block_byte(deciphered(block_at(data, i / 8), key, rounds), i % 8),
    )
}

/// Byte `i` of the token as key material: the token's own byte, or zero
/// past its end.
pub open spec fn key_byte(token: Seq<u8>, i: int) -> u8 {
    if i < token.len() {
        token[i]
    } else {
        0u8
    }
}

/// The key that a token gives: its first sixteen bytes, zero-filled where
/// the token is shorter, read as four little-endian words.
pub open spec fn key_of(token: Seq<u8>) -> Key {
    Key {
        k0: word_of(key_byte(token, 0), key_byte(token, 1), key_byte(token, 2), key_byte(token, 3)),
        k1: word_of(key_byte(token, 4), key_byte(token, 5), key_byte(token, 6), key_byte(token, 7)),
        k2: word_of(
            key_byte(token, 8),
            key_byte(token, 9),
            key_byte(token, 10),
            key_byte(token, 11),
        ),
        k3: word_of(
            key_byte(token, 12),
            key_byte(token, 13),
            key_byte(token, 14),
            key_byte(token, 15),
        ),
    }
}

/// A message made ready for the cipher: one byte that counts the bytes in use
/// in the last block (1 to 8, itself included where the frame is one block),
/// the message, and zeros up to a whole number of blocks.
pub open spec fn framed(plain: Seq<u8>) -> Seq<u8> {
    seq![(plain.len() % 8 + 1) as u8] + plain + Seq::new(
        (7 - plain.len() % 8) as nat,
        |i: int| 0u8,
    )
}

/// Whether `data` is the frame of some message.
pub open spec fn is_frame(data: Seq<u8>) -> bool {
    &&& data.len() > 0
    &&& data.len() % 8 == 0
    &&& 1 <= data[0] <= 8
    &&& forall|i: int| data.len() - 8 + data[0] <= i < data.len() ==> data[i] == 0
}

/// The message inside a frame.
pub open spec fn unframed(data: Seq<u8>) -> Seq<u8>
    recommends
        is_frame(data),
{
    data.subrange(1, data.len() - 8 + data[0])
}

/// The ciphertext of `plain`: its frame, enciphered block by block.
pub open spec fn encrypted(plain: Seq<u8>, key: Key, rounds: nat) -> Seq<u8> {
    enciphered_bytes(framed(plain), key, rounds)
}

/// The message that `cipher` holds, if it deciphers to a frame.
pub open spec fn decrypted(cipher: Seq<u8>, key: Key, rounds: nat) -> Option<Seq<u8>> {
    let data = deciphered_bytes(cipher, key, rounds);
    if is_frame(data) {
        Some(unframed(data))
    } else {
        None
    }
}

/// A word is the word of its own four bytes.
#[verifier::rlimit(50)]
pub proof fn lemma_word_of_bytes(w: u32)
    ensures
        word_of(byte_of(w, 0), byte_of(w, 1), byte_of(w, 2), byte_of(w, 3)) == w,
{
}

/// The bytes of a word built from four bytes are those four.
#[verifier::rlimit(50)]
pub proof fn lemma_bytes_of_word(b0: u8, b1: u8, b2: u8, b3: u8)
    ensures
        byte_of(word_of(b0, b1, b2, b3), 0) == b0,
        byte_of(word_of(b0, b1, b2, b3), 1) == b1,
        byte_of(word_of(b0, b1, b2, b3), 2) == b2,
        byte_of(word_of(b0, b1, b2, b3), 3) == b3,
{
}

/// Every message has a frame, and the frame gives the message back.
pub proof fn lemma_unframed_inverts_framed(plain: Seq<u8>)
    ensures
        is_frame(framed(plain)),
        framed(plain).len() == plain.len() + 8 - plain.len() % 8,
        unframed(framed(plain)) == plain,
{
    assert(unframed(framed(plain)) =~= plain);
}

/// A frame is the frame of the message inside it, and of no other.
pub proof fn lemma_framed_inverts_unframed(data: Seq<u8>)
    requires
        is_frame(data),
    ensures
        framed(unframed(data)) == data,
{
    assert(framed(unframed(data)) =~= data);
}

/// A block read from bytes is written back as those bytes.
pub proof fn lemma_block_bytes_of_block_at(data: Seq<u8>, j: int, k: int)
    requires
        0 <= k < 8,
    ensures
        block_byte(block_at(data, j), k) == data[8 * j + k],
{
    lemma_bytes_of_word(data[8 * j], data[8 * j + 1], data[8 * j + 2], data[8 * j + 3]);
    lemma_bytes_of_word(data[8 * j + 4], data[8 * j + 5], data[8 * j + 6], data[8 * j + 7]);
}

/// A block written as bytes is read back as that block.
pub proof fn lemma_block_of_block_bytes(b: Block)
    ensures
        b.v0 == word_of(block_byte(b, 0), block_byte(b, 1), block_byte(b, 2), block_byte(b, 3)),
        b.v1 == word_of(block_byte(b, 4), block_byte(b, 5), block_byte(b, 6), block_byte(b, 7)),
{
    lemma_word_of_bytes(b.v0);
    lemma_word_of_bytes(b.v1);
}

proof fn lemma_enciphered_block(data: Seq<u8>, key: Key, rounds: nat, j: int)
    requires
        0 <= j,
        8 * j + 8 <= data.len(),
    ensures
        block_at(enciphered_bytes(data, key, rounds), j) == enciphered(
            block_at(data, j),
            key,
            rounds,
        ),
{
    let mid = enciphered_bytes(data, key, rounds);
    let c = enciphered(block_at(data, j), key, rounds);
    assert forall|k: int| 0 <= k < 8 implies mid[8 * j + k] == block_byte(c, k) by {
        assert((8 * j + k) / 8 == j);
        assert((8 * j + k) % 8 == k);
    }
    assert(mid[8 * j] == block_byte(c, 0));
    assert(mid[8 * j + 1] == block_byte(c, 1));
    assert(mid[8 * j + 2] == block_byte(c, 2));
    assert(mid[8 * j + 3] == block_byte(c, 3));
    assert(mid[8 * j + 4] == block_byte(c, 4));
    assert(mid[8 * j + 5] == block_byte(c, 5));
    assert(mid[8 * j + 6] == block_byte(c, 6));
    assert(mid[8 * j + 7] == block_byte(c, 7));
    lemma_block_of_block_bytes(c);
}

/// On a whole number of blocks, deciphering the bytes inverts enciphering
/// them.
pub proof fn lemma_deciphered_bytes_inverts(data: Seq<u8>, key: Key, rounds: nat)
    requires
        data.len() % 8 == 0,
    ensures
        deciphered_bytes(enciphered_bytes(data, key, rounds), key, rounds) == data,
{
    let mid = enciphered_bytes(data, key, rounds);
    let back = deciphered_bytes(mid, key, rounds);
    assert forall|i: int| 0 <= i < data.len() implies back[i] == data[i] by {
        let j = i / 8;
        let k = i % 8;
        assert(i == 8 * j + k);
        lemma_enciphered_block(data, key, rounds, j);
        lemma_deciphered_inverts_enciphered(block_at(data, j), key, rounds);
        assert(back[i] == block_byte(deciphered(block_at(mid, j), key, rounds), k));
        lemma_block_bytes_of_block_at(data, j, k);
    }
    assert(back =~= data);
}

/// Decrypting a ciphertext with the key and the number of cycles that made
/// it gives the message back, whatever the message.
pub proof fn lemma_decrypted_inverts_encrypted(plain: Seq<u8>, key: Key, rounds: nat)
    ensures
        decrypted(encrypted(plain, key, rounds), key, rounds) == Some(plain),
{
    lemma_unframed_inverts_framed(plain);
    lemma_deciphered_bytes_inverts(framed(plain), key, rounds);
}

fn pack_word(b0: u8, b1: u8, b2: u8, b3: u8) -> (w: u32)
    ensures
        w == word_of(b0, b1, b2, b3),
{
    (b0 as u32) + 256 * (b1 as u32) + 65536 * (b2 as u32) + 16777216 * (b3 as u32)
}

fn read_block(data: &[u8], at: usize) -> (b: Block)
    requires
        at % 8 == 0,
        at + 8 <= data.len(),
    ensures
        b == block_at(data@, at as int / 8),
{
    Block {
        v0: pack_word(data[at], data[at + 1], data[at + 2], data[at + 3]),
        v1: pack_word(data[at + 4], data[at + 5], data[at + 6], data[at + 7]),
    }
}

fn push_word(out: &mut Vec<u8>, w: u32)
    ensures
        final(out)@ == old(out)@ + seq![byte_of(w, 0), byte_of(w, 1), byte_of(w, 2), byte_of(w, 3)],
{
    out.push((w % 256) as u8);
    out.push(((w / 256) % 256) as u8);
    out.push(((w / 65536) % 256) as u8);
    out.push((w / 16777216) as u8);
    assert(out@ =~= old(out)@ + seq![byte_of(w, 0), byte_of(w, 1), byte_of(w, 2), byte_of(w, 3)]);
}

fn push_block(out: &mut Vec<u8>, b: Block)
    ensures
        final(out)@ == old(out)@ + block_bytes(b),
{
    push_word(out, b.v0);
    push_word(out, b.v1);
    assert(out@ =~= old(out)@ + block_bytes(b));
}

fn token_byte(token: &[u8], i: usize) -> (b: u8)
    ensures
        b == key_byte(token@, i as int),
{
    if i < token.len() {
        token[i]
    } else {
        0
    }
}

/// Derives the cipher key from a challenge token: the first sixteen bytes,
/// zero-filled, as four little-endian words.
pub fn derive_key(token: &[u8]) -> (key: Key)
    ensures
        key == key_of(token@),
{
    Key {
        k0: pack_word(
            token_byte(token, 0),
            token_byte(token, 1),
            token_byte(token, 2),
            token_byte(token, 3),
        ),
        k1: pack_word(
            token_byte(token, 4),
            token_byte(token, 5),
            token_byte(token, 6),
            token_byte(token, 7),
        ),
        k2: pack_word(
            token_byte(token, 8),
            token_byte(token, 9),
            token_byte(token, 10),
            token_byte(token, 11),
        ),
        k3: pack_word(
            token_byte(token, 12),
            token_byte(token, 13),
            token_byte(token, 14),
            token_byte(token, 15),
        ),
    }
}

/// Frames a message for the cipher.
pub fn frame(plain: &[u8]) -> (out: Vec<u8>)
    requires
        plain.len() + 8 <= usize::MAX,
    ensures
        out@ == framed(plain@),
{
    let n: usize = plain.len();
    let mut out: Vec<u8> = Vec::with_capacity(n + 8);
    out.push((n % 8 + 1) as u8);
    let mut i: usize = 0;
    while i < n
        invariant
            i <= n,
            n == plain.len(),
            out@ == seq![(n % 8 + 1) as u8] + plain@.subrange(0, i as int),
        decreases n - i,
    {
        out.push(plain[i]);
        i = i + 1;
        assert(out@ =~= seq![(n % 8 + 1) as u8] + plain@.subrange(0, i as int));
    }
    let fill: usize = 7 - n % 8;
    let mut k: usize = 0;
    while k < fill
        invariant
            k <= fill,
            fill == 7 - n % 8,
            n == plain.len(),
            out@ == seq![(n % 8 + 1) as u8] + plain@ + Seq::new(k as nat, |i: int| 0u8),
        decreases fill - k,
    {
        out.push(0);
        k = k + 1;
        assert(out@ =~= seq![(n % 8 + 1) as u8] + plain@ + Seq::new(k as nat, |i: int| 0u8));
    }
    out
}

/// Takes the message out of a frame; `None` where `data` is no frame.
pub fn unframe(data: &[u8]) -> (out: Option<Vec<u8>>)
    ensures
        is_frame(data@) <==> out is Some,
        out matches Some(plain) ==> plain@ == unframed(data@),
{
    let n: usize = data.len();
    if n == 0 || n % 8 != 0 {
        return None;
    }
    let used: u8 = data[0];
    if used < 1 || used > 8 {
        return None;
    }
    let end: usize = n - 8 + used as usize;
    let mut z: usize = end;
    while z < n
        invariant
            end <= z <= n,
            n == data.len(),
            end == n - 8 + data@[0],
            forall|i: int| end <= i < z ==> data@[i] == 0,
        decreases n - z,
    {
        if data[z] != 0 {
            return None;
        }
        z = z + 1;
    }
    let mut out: Vec<u8> = Vec::with_capacity(end - 1);
    let mut i: usize = 1;
    while i < end
        invariant
            1 <= i <= end,
            end <= data.len(),
            out@ == data@.subrange(1, i as int),
        decreases end - i,
    {
        out.push(data[i]);
        i = i + 1;
        assert(out@ =~= data@.subrange(1, i as int));
    }
    Some(out)
}

fn encipher_bytes(data: &[u8], key: &Key, rounds: u32) -> (out: Vec<u8>)
    requires
        data.len() % 8 == 0,
    ensures
        out@ == enciphered_bytes(data@, *key, rounds as nat),
{
    let n: usize = data.len();
    let mut out: Vec<u8> = Vec::with_capacity(n);
    let mut at: usize = 0;
    while at < n
        invariant
            at <= n,
            at % 8 == 0,
            n % 8 == 0,
            n == data.len(),
            out@ == enciphered_bytes(data@, *key, rounds as nat).subrange(0, at as int),
        decreases n - at,
    {
        let b = read_block(data, at);
        let c = encipher(b, key, rounds);
        push_block(&mut out, c);
        at = at + 8;
        assert(out@ =~= enciphered_bytes(data@, *key, rounds as nat).subrange(0, at as int));
    }
    assert(out@ =~= enciphered_bytes(data@, *key, rounds as nat));
    out
}

fn decipher_bytes(data: &[u8], key: &Key, rounds: u32) -> (out: Vec<u8>)
    requires
        data.len() % 8 == 0,
    ensures
        out@ == deciphered_bytes(data@, *key, rounds as nat),
{
    let n: usize = data.len();
    let mut out: Vec<u8> = Vec::with_capacity(n);
    let mut at: usize = 0;
    while at < n
        invariant
            at <= n,
            at % 8 == 0,
            n % 8 == 0,
            n == data.len(),
            out@ == deciphered_bytes(data@, *key, rounds as nat).subrange(0, at as int),
        decreases n - at,
    {
        let b = read_block(data, at);
        let c = decipher(b, key, rounds);
        push_block(&mut out, c);
        at = at + 8;
        assert(out@ =~= deciphered_bytes(data@, *key, rounds as nat).subrange(0, at as int));
    }
    assert(out@ =~= deciphered_bytes(data@, *key, rounds as nat));
    out
}

/// Encrypts a message of any length: frames it and enciphers every block
/// with `rounds` cycles.
pub fn encrypt(plain: &[u8], key: &Key, rounds: u32) -> (out: Vec<u8>)
    requires
        plain.len() + 8 <= usize::MAX,
    ensures
        out@ == encrypted(plain@, *key, rounds as nat),
        out@.len() == plain@.len() + 8 - plain@.len() % 8,
{
    let data = frame(plain);
    proof {
        lemma_unframed_inverts_framed(plain@);
    }
    encipher_bytes(data.as_slice(), key, rounds)
}

/// Decrypts a ciphertext. `None` where it is not a whole number of blocks or
/// does not decipher to a frame.
pub fn decrypt(cipher: &[u8], key: &Key, rounds: u32) -> (out: Option<Vec<u8>>)
    ensures
        out is Some <==> decrypted(cipher@, *key, rounds as nat) is Some,
        out matches Some(plain) ==> Some(plain@) == decrypted(cipher@, *key, rounds as nat),
{
    if cipher.len() % 8 != 0 {
        return None;
    }
    let data = decipher_bytes(cipher, key, rounds);
    unframe(data.as_slice())
}

} // verus!
