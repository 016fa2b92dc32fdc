//! The hash functions that the protocol fixes. They are computed by the
//! `sha1`, `md-5` and `hmac` crates; this module gives each result a name,
//! so that the contracts above it can say which bytes were hashed, how, and
//! in what order.

use vstd::prelude::*;

verus! {

/// The SHA-1 digest of `data`.
pub uninterp spec fn sha1_of(data: Seq<u8>) -> Seq<u8>;

/// The MD5 digest of `data`.
pub uninterp spec fn md5_of(data: Seq<u8>) -> Seq<u8>;

/// The HMAC-MD5 code of `message` under `key`.
pub uninterp spec fn hmac_md5_of(key: Seq<u8>, message: Seq<u8>) -> Seq<u8>;

/// The hash that the checksum is taken with.
#[derive(Clone, Copy, Debug, PartialEq, Eq, Structural)]
pub enum HashAlgorithm {
    Sha1,
    Md5,
}

/// The digest of `data` under `algorithm`.
pub open spec fn digest_of(algorithm: HashAlgorithm, data: Seq<u8>) -> Seq<u8> {
    match algorithm {
        HashAlgorithm::Sha1 => sha1_of(data),
        HashAlgorithm::Md5 => md5_of(data),
    }
}

/// `Sha1::digest` of the `sha1` crate, through the `Digest` trait: hashes the
/// whole of `data` in one go. The result is the SHA-1 digest of `data`, a
/// function of the bytes alone.
#[verifier::external_body]
fn sha1_digest(data: &[u8]) -> (out: Vec<u8>)
    ensures
        out@ == sha1_of(data@),
{
    <sha1::Sha1 as sha1::Digest>::digest(data).to_vec()
}

/// `Md5::digest` of the `md-5` crate, through the `Digest` trait: hashes the
/// whole of `data` in one go. The result is the MD5 digest of `data`, a
/// function of the bytes alone.
#[verifier::external_body]
fn md5_digest(data: &[u8]) -> (out: Vec<u8>)
    ensures
        out@ == md5_of(data@),
{
    <md5::Md5 as md5::Digest>::digest(data).to_vec()
}

/// `Hmac<Md5>` of the `hmac` crate: `new_from_slice` with `key`, `update`
/// with `message`, `finalize`. The crate takes a key of any length (its
/// `new_from_slice` has no failing path), so there is always a code, and the
/// code is a function of key and message alone.
#[verifier::external_body]
fn hmac_md5(key: &[u8], message: &[u8]) -> (out: Option<Vec<u8>>)
    ensures
        out is Some,
        out matches Some(code) ==> code@ == hmac_md5_of(key@, message@),
{
    match <hmac::Hmac<md5::Md5> as hmac::Mac>::new_from_slice(key) {
        Ok(mut mac) => {
            hmac::Mac::update(&mut mac, message);
            Some(hmac::Mac::finalize(mac).into_bytes().to_vec())
        },
        Err(_) => None,
    }
}

/// Hashes `data` with the chosen algorithm.
pub fn digest(algorithm: HashAlgorithm, data: &[u8]) -> (out: Vec<u8>)
    ensures
        out@ == digest_of(algorithm, data@),
{
    match algorithm {
        HashAlgorithm::Sha1 => sha1_digest(data),
        HashAlgorithm::Md5 => md5_digest(data),
    }
}

/// The HMAC-MD5 code of `message` under `key`.
pub fn keyed_hash(key: &[u8], message: &[u8]) -> (out: Vec<u8>)
    ensures
        out@ == hmac_md5_of(key@, message@),
{
    hmac_md5(key, message).unwrap()
}

} // verus!
