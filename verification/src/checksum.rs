//! The integrity checksum of a login request, and the form in which the
//! password travels.
//!
//! The checksum is the hexadecimal digest of the protocol's fields laid end
//! to end in the order given. Nothing separates them but the challenge
//! token, which the login request puts before every field: a field that is
//! empty still has its token in front of it.

use crate::digest::{digest, digest_of, hmac_md5_of, keyed_hash, HashAlgorithm};
use crate::hex::{hex_of, is_hex_char, lemma_hex_chars, lemma_hex_injective, to_hex};
use crate::text::{all_ascii, append_text, bytes_of, chars_of, text_of};
use vstd::prelude::*;
use vstd::string::StringSliceAdditionalSpecFns;

verus! {

/// What the login request carries as its password where none was given.
pub const NO_PASSWORD: &'static str = "{NONE}";

/// The request's fixed numeric field.
pub const FIELD_N: &'static str = "200";

/// The request's fixed type field.
pub const FIELD_TYPE: &'static str = "1";

/// The bytes of each text, in order.
pub open spec fn bytes_of_each(fields: Seq<&str>) -> Seq<Seq<u8>> {
    Seq::new(fields.len(), |i: int| fields[i].spec_bytes())
}

/// The checksum over `fields`: the lowercase hexadecimal digest of the
/// fields laid end to end.
pub open spec fn checksum_of(algorithm: HashAlgorithm, fields: Seq<Seq<u8>>) -> Seq<u8> {
    hex_of(digest_of(algorithm, fields.flatten()))
}

/// The password as the checksum and the request carry it where one was
/// given: the hexadecimal HMAC-MD5 code of the password under the token.
pub open spec fn password_code(password: Seq<u8>, token: Seq<u8>) -> Seq<u8> {
    hex_of(hmac_md5_of(token, password))
}

/// The password's place in the checksum: empty where no password was given,
/// else the password's code.
pub open spec fn password_slot(password: Seq<u8>, token: Seq<u8>) -> Seq<u8> {
    if password.len() == 0 {
        Seq::<u8>::empty()
    } else {
        password_code(password, token)
    }
}

/// The password parameter of the login request: the marker where no
/// password was given, else the password's code.
pub open spec fn password_param(password: Seq<u8>, token: Seq<u8>) -> Seq<u8> {
    if password.len() == 0 {
        NO_PASSWORD.spec_bytes()
    } else {
        password_code(password, token)
    }
}

/// The password parameter as text.
pub open spec fn password_param_text(password: Seq<char>, token: Seq<char>) -> Seq<char> {
    if password.len() == 0 {
        NO_PASSWORD@
    } else {
        chars_of(password_code(bytes_of(password), bytes_of(token)))
    }
}

/// The fields of the login checksum in their order on the wire: the token
/// before each of username, password slot, access-point id, address, the
/// two fixed fields and the credential blob.
pub open spec fn login_fields(
    token: Seq<u8>,
    username: Seq<u8>,
    slot: Seq<u8>,
    ac_id: Seq<u8>,
    ip: Seq<u8>,
    blob: Seq<u8>,
) -> Seq<Seq<u8>> {
    seq![
        token,
        username,
        token,
        slot,
        token,
        ac_id,
        token,
        ip,
        token,
        FIELD_N.spec_bytes(),
        token,
        FIELD_TYPE.spec_bytes(),
        token,
        blob,
    ]
}

/// The marker stands for no password only: it is the code of no password
/// under any token, that of the empty password included.
pub proof fn lemma_marker_is_no_code(password: Seq<u8>, token: Seq<u8>)
    ensures
        password_code(password, token) != NO_PASSWORD.spec_bytes(),
        password.len() > 0 ==> password_param(password, token) != NO_PASSWORD.spec_bytes(),
        password.len() == 0 ==> password_param(password, token) == NO_PASSWORD.spec_bytes(),
{
    broadcast use vstd::string::is_ascii_spec_bytes;

    reveal_strlit("{NONE}");
    assert(NO_PASSWORD.is_ascii());
    let marker = NO_PASSWORD.spec_bytes();
    assert(marker[0] == 0x7b);
    let code = password_code(password, token);
    lemma_hex_chars(hmac_md5_of(token, password));
    if code == marker {
        assert(is_hex_char(code[0]));
    }
}

/// Two fields laid end to end are hashed in the order given: swapping them
/// changes the bytes that are hashed unless the two happen to give the same
/// bytes either way round, and two checksums are equal exactly when the
/// digests are.
pub proof fn lemma_order_is_hashed(algorithm: HashAlgorithm, first: Seq<u8>, second: Seq<u8>)
    ensures
        seq![first, second].flatten() == first + second,
        seq![second, first].flatten() == second + first,
        checksum_of(algorithm, seq![first, second]) == checksum_of(algorithm, seq![second, first])
            <==> digest_of(algorithm, first + second) == digest_of(algorithm, second + first),
{
    lemma_flatten_pair(first, second);
    lemma_flatten_pair(second, first);
    if checksum_of(algorithm, seq![first, second]) == checksum_of(
        algorithm,
        seq![second, first],
    ) {
        lemma_hex_injective(
            digest_of(algorithm, first + second),
            digest_of(algorithm, second + first),
        );
    }
}

/// The login checksum is taken over the fields in their order with the
/// token before each: a field that is empty leaves its token where it is.
pub proof fn lemma_login_fields_laid_out(
    token: Seq<u8>,
    username: Seq<u8>,
    slot: Seq<u8>,
    ac_id: Seq<u8>,
    ip: Seq<u8>,
    blob: Seq<u8>,
)
    ensures
        login_fields(token, username, slot, ac_id, ip, blob).len() == 14,
        login_fields(token, username, slot, ac_id, ip, blob).flatten() == token + username + token
            + slot + token + ac_id + token + ip + token + FIELD_N.spec_bytes() + token
            + FIELD_TYPE.spec_bytes() + token + blob,
{
    let n = FIELD_N.spec_bytes();
    let t = FIELD_TYPE.spec_bytes();
    let s0 = Seq::<Seq<u8>>::empty();
    let s1 = s0.push(token);
    let s2 = s1.push(username);
    let s3 = s2.push(token);
    let s4 = s3.push(slot);
    let s5 = s4.push(token);
    let s6 = s5.push(ac_id);
    let s7 = s6.push(token);
    let s8 = s7.push(ip);
    let s9 = s8.push(token);
    let s10 = s9.push(n);
    let s11 = s10.push(token);
    let s12 = s11.push(t);
    let s13 = s12.push(token);
    let s14 = s13.push(blob);
    assert(s0.flatten() =~= Seq::<u8>::empty());
    s0.lemma_flatten_push(token);
    s1.lemma_flatten_push(username);
    s2.lemma_flatten_push(token);
    s3.lemma_flatten_push(slot);
    s4.lemma_flatten_push(token);
    s5.lemma_flatten_push(ac_id);
    s6.lemma_flatten_push(token);
    s7.lemma_flatten_push(ip);
    s8.lemma_flatten_push(token);
    s9.lemma_flatten_push(n);
    s10.lemma_flatten_push(token);
    s11.lemma_flatten_push(t);
    s12.lemma_flatten_push(token);
    s13.lemma_flatten_push(blob);
    assert(s14 =~= login_fields(token, username, slot, ac_id, ip, blob));
    assert(s14.flatten() =~= token + username + token + slot + token + ac_id + token + ip + token
        + n + token + t + token + blob);
}

proof fn lemma_flatten_pair(first: Seq<u8>, second: Seq<u8>)
    ensures
        seq![first, second].flatten() == first + second,
{
    let one = seq![first];
    assert(one.flatten() == first) by {
        one.lemma_flatten_one_element();
    }
    assert(one.push(second) =~= seq![first, second]);
    one.lemma_flatten_push(second);
}

/// Lays the bytes of the fields end to end.
fn join(fields: &[&str]) -> (out: Vec<u8>)
    ensures
        out@ == bytes_of_each(fields@).flatten(),
{
    let ghost all = bytes_of_each(fields@);
    let mut out: Vec<u8> = Vec::new();
    let mut i: usize = 0;
    assert(all.take(0) =~= Seq::<Seq<u8>>::empty());
    while i < fields.len()
        invariant
            i <= fields.len(),
            all == bytes_of_each(fields@),
            out@ == all.take(i as int).flatten(),
        decreases fields.len() - i,
    {
        append_text(&mut out, fields[i]);
        proof {
            assert(all.take(i + 1) =~= all.take(i as int).push(all[i as int]));
            all.take(i as int).lemma_flatten_push(all[i as int]);
        }
        i = i + 1;
    }
    assert(all.take(fields.len() as int) =~= all);
    out
}

/// The checksum over `fields`, taken in exactly the order given.
pub fn compute(fields: &[&str], algorithm: HashAlgorithm) -> (sum: String)
    ensures
        sum@ == chars_of(checksum_of(algorithm, bytes_of_each(fields@))),
{
    let input = join(fields);
    let hash = digest(algorithm, input.as_slice());
    let hex = to_hex(hash.as_slice());
    text_of(hex.as_slice())
}

/// The password's code: the hexadecimal HMAC-MD5 of the password under the
/// challenge token.
pub fn hash_password(password: &str, token: &str) -> (code: String)
    ensures
        code@ == chars_of(password_code(bytes_of(password@), bytes_of(token@))),
        bytes_of(code@) == password_code(bytes_of(password@), bytes_of(token@)),
{
    let mac = keyed_hash(token.as_bytes(), password.as_bytes());
    let hex = to_hex(mac.as_slice());
    proof {
        lemma_hex_chars(mac@);
    }
    text_of(hex.as_slice())
}

/// What stands for the password in the checksum: nothing where no password
/// was given, else the password's code.
pub fn password_for_checksum(password: &str, token: &str) -> (slot: String)
    ensures
        slot@ == chars_of(password_slot(bytes_of(password@), bytes_of(token@))),
        bytes_of(slot@) == password_slot(bytes_of(password@), bytes_of(token@)),
{
    if password.is_empty() {
        let slot = String::new();
        assert(slot@ =~= chars_of(Seq::<u8>::empty()));
        assert(bytes_of(password@).len() == 0) by {
            assert(password@ =~= Seq::<char>::empty());
            reveal_with_fuel(vstd::utf8::encode_utf8, 1);
        }
        assert(bytes_of(slot@) =~= Seq::<u8>::empty()) by {
            reveal_with_fuel(vstd::utf8::encode_utf8, 1);
        }
        slot
    } else {
        proof {
            lemma_nonempty_text(password@);
        }
        hash_password(password, token)
    }
}

/// What the login request carries as its password: the marker where no
/// password was given, else the password's code.
pub fn password_for_request(password: &str, token: &str) -> (param: String)
    ensures
        param@ == password_param_text(password@, token@),
        bytes_of(param@) == password_param(bytes_of(password@), bytes_of(token@)),
{
    if password.is_empty() {
        assert(bytes_of(password@).len() == 0) by {
            assert(password@ =~= Seq::<char>::empty());
            reveal_with_fuel(vstd::utf8::encode_utf8, 1);
        }
        NO_PASSWORD.to_owned()
    } else {
        proof {
            lemma_nonempty_text(password@);
        }
        hash_password(password, token)
    }
}

proof fn lemma_nonempty_text(text: Seq<char>)
    requires
        text.len() > 0,
    ensures
        bytes_of(text).len() > 0,
{
    vstd::utf8::encode_utf8_first_scalar(text);
}

/// The checksum of a login request: the token before each of username,
/// password slot, access-point id, address, the two fixed fields and the
/// credential blob, hashed in that order.
pub fn login_checksum(
    token: &str,
    username: &str,
    slot: &str,
    ac_id: &str,
    ip: &str,
    blob: &str,
    algorithm: HashAlgorithm,
) -> (sum: String)
    ensures
        sum@ == chars_of(
            checksum_of(
                algorithm,
                login_fields(
                    bytes_of(token@),
                    bytes_of(username@),
                    bytes_of(slot@),
                    bytes_of(ac_id@),
                    bytes_of(ip@),
                    bytes_of(blob@),
                ),
            ),
        ),
{
    let fields: Vec<&str> = vec![
        token,
        username,
        token,
        slot,
        token,
        ac_id,
        token,
        ip,
        token,
        FIELD_N,
        token,
        FIELD_TYPE,
        token,
        blob,
    ];
    assert(bytes_of_each(fields@) =~= login_fields(
        bytes_of(token@),
        bytes_of(username@),
        bytes_of(slot@),
        bytes_of(ac_id@),
        bytes_of(ip@),
        bytes_of(blob@),
    ));
    compute(fields.as_slice(), algorithm)
}

} // verus!
