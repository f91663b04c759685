//! Encodings and digests that lyrics sources use, from the `base64`, `md5`, `aes`, `ecb` and
//! `hex` crates, and UTF-8 decoding from std.

use vstd::prelude::*;
use vstd::utf8::{decode_utf8, valid_utf8};
use aes::cipher::{BlockEncryptMut, KeyInit};
use base64::Engine;

verus! {

/// What standard base64 decoding (RFC 4648 alphabet, with padding) gives for `input`, `None`
/// when `input` is not such base64.
pub uninterp spec fn base64_standard_decoding(input: Seq<u8>) -> Option<Seq<u8>>;

/// `base64::engine::general_purpose::STANDARD.decode(input)`: the result is the one named by
/// [`base64_standard_decoding`], `None` for a decode error.
#[verifier::external_body]
pub(crate) fn base64_decode(input: &[u8]) -> (r: Option<Vec<u8>>)
    ensures
        match r {
            Some(v) => base64_standard_decoding(input@) == Some(v@),
            None => base64_standard_decoding(input@) is None,
        },
{
    base64::engine::general_purpose::STANDARD.decode(input).ok()
}

/// `String::from_utf8(v).ok()`: a string exactly when `v` is valid UTF-8, with the characters
/// that `v` encodes.
#[verifier::external_body]
pub(crate) fn string_from_utf8(v: Vec<u8>) -> (r: Option<String>)
    ensures
        r is Some <==> valid_utf8(v@),
        r matches Some(s) ==> s@ == decode_utf8(v@),
{
    String::from_utf8(v).ok()
}

/// The MD5 digest of `data` (16 bytes).
pub uninterp spec fn md5_digest(data: Seq<u8>) -> Seq<u8>;

/// The hexadecimal digit of `d < 16`, lower case.
pub open spec fn hex_digit_lower(d: u8) -> char {
    if d < 10 {
        ('0' as u8 + d) as char
    } else {
        ('a' as u8 + (d - 10)) as char
    }
}

/// The hexadecimal digit of `d < 16`, upper case.
pub open spec fn hex_digit_upper(d: u8) -> char {
    if d < 10 {
        ('0' as u8 + d) as char
    } else {
        ('A' as u8 + (d - 10)) as char
    }
}

/// Each byte of `b` as two lower case hexadecimal digits, high first.
pub open spec fn hex_lower(b: Seq<u8>) -> Seq<char>
    decreases b.len(),
{
    if b.len() == 0 {
        seq![]
    } else {
        hex_lower(b.drop_last()) + seq![
            hex_digit_lower(b.last() / 16),
            hex_digit_lower(b.last() % 16),
        ]
    }
}

/// Each byte of `b` as two upper case hexadecimal digits, high first.
pub open spec fn hex_upper(b: Seq<u8>) -> Seq<char>
    decreases b.len(),
{
    if b.len() == 0 {
        seq![]
    } else {
        hex_upper(b.drop_last()) + seq![
            hex_digit_upper(b.last() / 16),
            hex_digit_upper(b.last() % 16),
        ]
    }
}

/// `format!("{:x}", md5::compute(data))`: the MD5 digest of `data`, named by [`md5_digest`],
/// in lower case hexadecimal (the digest's `LowerHex` writes each byte as `{:02x}`).
#[verifier::external_body]
pub(crate) fn md5_hex(data: &[u8]) -> (r: String)
    ensures
        r@ == hex_lower(md5_digest(data@)),
{
    format!("{:x}", md5::compute(data))
}

/// AES-128 in ECB mode with PKCS#7 padding, under `key`, of `data`.
pub uninterp spec fn aes128_ecb_pkcs7(key: Seq<u8>, data: Seq<u8>) -> Seq<u8>;

/// `ecb::Encryptor::<aes::Aes128>::new(key).encrypt_padded_vec_mut::<Pkcs7>(data)`: the result
/// named by [`aes128_ecb_pkcs7`].
#[verifier::external_body]
pub(crate) fn aes128_ecb_encrypt(key: &[u8; 16], data: &[u8]) -> (r: Vec<u8>)
    ensures
        r@ == aes128_ecb_pkcs7(key@, data@),
{
    ecb::Encryptor::<aes::Aes128>::new(key.into()).encrypt_padded_vec_mut::<
        aes::cipher::block_padding::Pkcs7,
    >(data)
}

/// `hex::encode_upper(data)`: each byte as two upper case hexadecimal digits.
#[verifier::external_body]
pub(crate) fn hex_encode_upper(data: &[u8]) -> (r: String)
    ensures
        r@ == hex_upper(data@),
{
    hex::encode_upper(data)
}

} // verus!
