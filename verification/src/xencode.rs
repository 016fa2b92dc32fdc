//! The credential blob: the credentials as one JSON object with its members
//! in a fixed order, encrypted under the challenge token, written over the
//! protocol's alphabet, and marked with the version prefix.

use crate::cipher::{decrypt, decrypted, derive_key, encrypt, encrypted, key_of};
use crate::cipher::lemma_decrypted_inverts_encrypted;
use crate::hex::{hex_digit, hex_digit_of};
use crate::radix::{coded, decode, decoded, encode, lemma_decoded_inverts_coded};
use crate::text::{all_ascii, append_bytes, append_text, bytes_of, chars_of, text_of};
use vstd::prelude::*;
use vstd::string::StringSliceAdditionalSpecFns;

verus! {

/// What every blob starts with: the mark of the encoding version.
pub const PREFIX: &'static str = "{SRBX1}";

/// The value of the `enc_ver` member.
pub const ENC_VER: &'static str = "srun_bx1";

/// The longest credential field, in bytes, that is encoded.
pub const MAX_FIELD_BYTES: usize = 4096;

/// How one byte of a string stands inside JSON quotes: the quote and the
/// backslash behind a backslash, the control characters by their short
/// escape where JSON has one and as `\u00` with two hexadecimal digits where
/// it has none, every other byte as it is.
pub open spec fn escaped_byte(b: u8) -> Seq<u8> {
    if b == 0x22 {
        seq![0x5cu8, 0x22u8]
    } else if b == 0x5c {
        seq![0x5cu8, 0x5cu8]
    } else if b == 0x08 {
        seq![0x5cu8, 0x62u8]
    } else if b == 0x0c {
        seq![0x5cu8, 0x66u8]
    } else if b == 0x0a {
        seq![0x5cu8, 0x6eu8]
    } else if b == 0x0d {
        seq![0x5cu8, 0x72u8]
    } else if b == 0x09 {
        seq![0x5cu8, 0x74u8]
    } else if b < 0x20 {
        seq![
            0x5cu8,
            0x75u8,
            0x30u8,
            0x30u8,
            hex_digit_of(b as int / 16),
            hex_digit_of(b as int % 16),
        ]
    } else {
        seq![b]
    }
}

/// The bytes of a string as they stand inside JSON quotes.
pub open spec fn escaped(s: Seq<u8>) -> Seq<u8>
    decreases s.len(),
{
    if s.len() == 0 {
        Seq::<u8>::empty()
    } else {
        escaped(s.drop_last()) + escaped_byte(s.last())
    }
}

/// A JSON string: the escaped bytes between two quotes.
pub open spec fn quoted(s: Seq<u8>) -> Seq<u8> {
    seq![0x22u8] + escaped(s) + seq![0x22u8]
}

/// One member of a JSON object: the name in quotes, a colon, the value as a
/// JSON string. Names are written as they are: they hold nothing to escape.
pub open spec fn member(name: &str, value: Seq<u8>) -> Seq<u8> {
    seq![0x22u8] + name.spec_bytes() + seq![0x22u8, 0x3au8] + quoted(value)
}

/// The credentials as JSON: the members `username`, `password`, `ip`,
/// `acid` and `enc_ver`, in this order, with no space between them.
pub open spec fn credential_json(
    username: Seq<u8>,
    password: Seq<u8>,
    ip: Seq<u8>,
    ac_id: Seq<u8>,
) -> Seq<u8> {
    seq![0x7bu8] + member("username", username) + seq![0x2cu8] + member("password", password)
        + seq![0x2cu8] + member("ip", ip) + seq![0x2cu8] + member("acid", ac_id) + seq![0x2cu8]
        + member("enc_ver", ENC_VER.spec_bytes()) + seq![0x7du8]
}

/// The blob for a JSON payload: the prefix, then the payload encrypted under
/// the token's key and written over the alphabet.
pub open spec fn sealed(payload: Seq<u8>, token: Seq<u8>, rounds: nat) -> Seq<u8> {
    PREFIX.spec_bytes() + coded(encrypted(payload, key_of(token), rounds))
}

/// The blob for a set of credentials.
pub open spec fn credential_blob(
    username: Seq<u8>,
    password: Seq<u8>,
    ip: Seq<u8>,
    ac_id: Seq<u8>,
    token: Seq<u8>,
    rounds: nat,
) -> Seq<u8> {
    sealed(credential_json(username, password, ip, ac_id), token, rounds)
}

/// The payload inside a blob, where the blob has the prefix, is written over
/// the alphabet and decrypts to a frame.
pub open spec fn opened(blob: Seq<u8>, token: Seq<u8>, rounds: nat) -> Option<Seq<u8>> {
    let mark = PREFIX.spec_bytes();
    if blob.len() >= mark.len() && blob.subrange(0, mark.len() as int) == mark {
        match decoded(blob.subrange(mark.len() as int, blob.len() as int)) {
            Some(cipher) => decrypted(cipher, key_of(token), rounds),
            None => None,
        }
    } else {
        None
    }
}

/// Opening a blob with the token and the number of cycles that sealed it
/// gives the payload back.
pub proof fn lemma_opened_inverts_sealed(payload: Seq<u8>, token: Seq<u8>, rounds: nat)
    ensures
        opened(sealed(payload, token, rounds), token, rounds) == Some(payload),
{
    let mark = PREFIX.spec_bytes();
    let cipher = encrypted(payload, key_of(token), rounds);
    let blob = sealed(payload, token, rounds);
    assert(blob.subrange(0, mark.len() as int) =~= mark);
    assert(blob.subrange(mark.len() as int, blob.len() as int) =~= coded(cipher));
    lemma_decoded_inverts_coded(cipher);
    lemma_decrypted_inverts_encrypted(payload, key_of(token), rounds);
}

/// The blob is a function of the credentials, the token and the number of
/// cycles, and two payloads never share a blob.
pub proof fn lemma_blob_determined(
    first: Seq<u8>,
    second: Seq<u8>,
    token: Seq<u8>,
    rounds: nat,
)
    ensures
        first == second <==> sealed(first, token, rounds) == sealed(second, token, rounds),
{
    lemma_opened_inverts_sealed(first, token, rounds);
    lemma_opened_inverts_sealed(second, token, rounds);
}

/// No byte takes more than six bytes when escaped.
pub proof fn lemma_escaped_len(s: Seq<u8>)
    ensures
        s.len() <= escaped(s).len() <= 6 * s.len(),
    decreases s.len(),
{
    if s.len() > 0 {
        lemma_escaped_len(s.drop_last());
    }
}

/// The JSON of the credentials is at most six times their bytes and 128 more.
pub proof fn lemma_credential_json_len(
    username: Seq<u8>,
    password: Seq<u8>,
    ip: Seq<u8>,
    ac_id: Seq<u8>,
)
    ensures
        credential_json(username, password, ip, ac_id).len() <= 6 * (username.len()
            + password.len() + ip.len() + ac_id.len()) + 128,
{
    broadcast use vstd::string::is_ascii_spec_bytes;

    reveal_strlit("username");
    reveal_strlit("password");
    reveal_strlit("ip");
    reveal_strlit("acid");
    reveal_strlit("enc_ver");
    reveal_strlit("srun_bx1");
    assert("username".is_ascii());
    assert("password".is_ascii());
    assert("ip".is_ascii());
    assert("acid".is_ascii());
    assert("enc_ver".is_ascii());
    assert(ENC_VER.is_ascii());
    lemma_escaped_len(username);
    lemma_escaped_len(password);
    lemma_escaped_len(ip);
    lemma_escaped_len(ac_id);
    lemma_escaped_len(ENC_VER.spec_bytes());
}

#[verifier::rlimit(50)]
fn write_escaped(out: &mut Vec<u8>, s: &[u8])
    ensures
        final(out)@ == old(out)@ + escaped(s@),
{
    let mut i: usize = 0;
    assert(s@.subrange(0, 0) =~= Seq::<u8>::empty());
    while i < s.len()
        invariant
            i <= s.len(),
            out@ == old(out)@ + escaped(s@.subrange(0, i as int)),
        decreases s.len() - i,
    {
        let b: u8 = s[i];
        let ghost before = out@;
        if b == 0x22 {
            out.push(0x5c);
            out.push(0x22);
        } else if b == 0x5c {
            out.push(0x5c);
            out.push(0x5c);
        } else if b == 0x08 {
            out.push(0x5c);
            out.push(0x62);
        } else if b == 0x0c {
            out.push(0x5c);
            out.push(0x66);
        } else if b == 0x0a {
            out.push(0x5c);
            out.push(0x6e);
        } else if b == 0x0d {
            out.push(0x5c);
            out.push(0x72);
        } else if b == 0x09 {
            out.push(0x5c);
            out.push(0x74);
        } else if b < 0x20 {
            out.push(0x5c);
            out.push(0x75);
            out.push(0x30);
            out.push(0x30);
            out.push(hex_digit(b / 16));
            out.push(hex_digit(b % 16));
        } else {
            out.push(b);
        }
        assert(out@ =~= before + escaped_byte(b));
        i = i + 1;
        proof {
            let upto = s@.subrange(0, i as int);
            assert(upto.drop_last() =~= s@.subrange(0, i - 1));
            assert(upto.last() == b);
        }
    }
    assert(s@.subrange(0, s.len() as int) =~= s@);
}

fn write_member(out: &mut Vec<u8>, name: &str, value: &[u8])
    ensures
        final(out)@ == old(out)@ + member(name, value@),
{
    out.push(0x22);
    append_text(out, name);
    out.push(0x22);
    out.push(0x3a);
    out.push(0x22);
    write_escaped(out, value);
    out.push(0x22);
    assert(out@ =~= old(out)@ + member(name, value@));
}

/// Writes the credentials as JSON, members in their fixed order.
pub fn write_credential_json(username: &[u8], password: &[u8], ip: &[u8], ac_id: &[u8]) -> (out:
    Vec<u8>)
    ensures
        out@ == credential_json(username@, password@, ip@, ac_id@),
{
    let mut out: Vec<u8> = Vec::new();
    out.push(0x7b);
    write_member(&mut out, "username", username);
    out.push(0x2c);
    write_member(&mut out, "password", password);
    out.push(0x2c);
    write_member(&mut out, "ip", ip);
    out.push(0x2c);
    write_member(&mut out, "acid", ac_id);
    out.push(0x2c);
    write_member(&mut out, "enc_ver", ENC_VER.as_bytes());
    out.push(0x7d);
    assert(out@ =~= credential_json(username@, password@, ip@, ac_id@));
    out
}

/// Seals a payload: encrypts it under the token's key with `rounds` cycles,
/// writes the ciphertext over the alphabet and puts the prefix in front.
pub fn seal(payload: &[u8], token: &[u8], rounds: u32) -> (blob: Vec<u8>)
    requires
        4 * (payload.len() + 8) + 2 <= usize::MAX,
    ensures
        blob@ == sealed(payload@, token@, rounds as nat),
        all_ascii(blob@),
{
    let key = derive_key(token);
    let cipher = encrypt(payload, &key, rounds);
    let body = encode(cipher.as_slice());
    let mut blob: Vec<u8> = Vec::new();
    append_text(&mut blob, PREFIX);
    append_bytes(&mut blob, body.as_slice());
    proof {
        broadcast use vstd::string::is_ascii_spec_bytes;

        reveal_strlit("{SRBX1}");
        assert(PREFIX.is_ascii());
    }
    blob
}

/// Opens a blob: the payload that it was sealed from, or `None` where it
/// lacks the prefix, is not written over the alphabet, or does not decrypt
/// to a frame under this token and number of cycles.
pub fn open(blob: &[u8], token: &[u8], rounds: u32) -> (payload: Option<Vec<u8>>)
    ensures
        payload is Some <==> opened(blob@, token@, rounds as nat) is Some,
        payload matches Some(p) ==> Some(p@) == opened(blob@, token@, rounds as nat),
{
    let mark = PREFIX.as_bytes();
    if blob.len() < mark.len() {
        return None;
    }
    let mut i: usize = 0;
    while i < mark.len()
        invariant
            i <= mark.len() <= blob.len(),
            mark@ == PREFIX.spec_bytes(),
            blob@.subrange(0, i as int) == mark@.subrange(0, i as int),
        decreases mark.len() - i,
    {
        if blob[i] != mark[i] {
            assert(blob@.subrange(0, mark.len() as int)[i as int] != mark@[i as int]);
            return None;
        }
        i = i + 1;
        assert(blob@.subrange(0, i as int) =~= blob@.subrange(0, i - 1).push(blob@[i - 1]));
        assert(mark@.subrange(0, i as int) =~= mark@.subrange(0, i - 1).push(mark@[i - 1]));
    }
    assert(mark@.subrange(0, mark.len() as int) =~= mark@);
    let mut body: Vec<u8> = Vec::new();
    let mut k: usize = mark.len();
    while k < blob.len()
        invariant
            mark.len() <= k <= blob.len(),
            body@ == blob@.subrange(mark.len() as int, k as int),
        decreases blob.len() - k,
    {
        body.push(blob[k]);
        k = k + 1;
        assert(body@ =~= blob@.subrange(mark.len() as int, k as int));
    }
    match decode(body.as_slice()) {
        Some(cipher) => {
            let key = derive_key(token);
            decrypt(cipher.as_slice(), &key, rounds)
        },
        None => None,
    }
}

/// The credential blob of a login request, as text: the credentials as
/// JSON, sealed under the challenge token.
///
/// The text is fixed by the arguments: the same credentials, token and
/// number of cycles give the same blob, character for character.
pub fn param_i(
    username: &str,
    password: &str,
    ip: &str,
    ac_id: &str,
    token: &str,
    rounds: u32,
) -> (blob: String)
    requires
        bytes_of(username@).len() <= MAX_FIELD_BYTES,
        bytes_of(password@).len() <= MAX_FIELD_BYTES,
        bytes_of(ip@).len() <= MAX_FIELD_BYTES,
        bytes_of(ac_id@).len() <= MAX_FIELD_BYTES,
    ensures
        blob@ == chars_of(
            credential_blob(
                bytes_of(username@),
                bytes_of(password@),
                bytes_of(ip@),
                bytes_of(ac_id@),
                bytes_of(token@),
                rounds as nat,
            ),
        ),
        bytes_of(blob@) == credential_blob(
            bytes_of(username@),
            bytes_of(password@),
            bytes_of(ip@),
            bytes_of(ac_id@),
            bytes_of(token@),
            rounds as nat,
        ),
{
    let json = write_credential_json(
        username.as_bytes(),
        password.as_bytes(),
        ip.as_bytes(),
        ac_id.as_bytes(),
    );
    proof {
        lemma_credential_json_len(
            username.spec_bytes(),
            password.spec_bytes(),
            ip.spec_bytes(),
            ac_id.spec_bytes(),
        );
    }
    let blob = seal(json.as_slice(), token.as_bytes(), rounds);
    text_of(blob.as_slice())
}

} // verus!
