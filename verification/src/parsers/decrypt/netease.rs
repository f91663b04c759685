//! Netease `eapi` request encryption.

use vstd::prelude::*;
use vstd::string::StringSliceAdditionalSpecFns;
use crate::codec::{
    aes128_ecb_encrypt, aes128_ecb_pkcs7, hex_encode_upper, hex_lower, hex_upper, md5_digest,
    md5_hex,
};
use crate::error::LyrixResult;

verus! {

/// The AES key of Netease `eapi` requests, `e82ckenh8dichen8`.
pub const EAPI_KEY: [u8; 16] = [
    101, 56, 50, 99, 107, 101, 110, 104, 56, 100, 105, 99, 104, 101, 110, 56,
];

/// The text whose MD5 digest signs an `eapi` request.
pub open spec fn eapi_message(url: Seq<char>, body: Seq<char>) -> Seq<char> {
    "nobody"@ + url + "use"@ + body + "md5forencrypt"@
}

/// The text that an `eapi` request encrypts: the url, the body and the signature.
pub open spec fn eapi_data(url: Seq<char>, body: Seq<char>) -> Seq<char> {
    url + "-36cd479b6b5-"@ + body + "-36cd479b6b5-"@ + hex_lower(
        md5_digest(vstd::utf8::encode_utf8(eapi_message(url, body))),
    )
}

/// The `params` of a Netease `eapi` request for `url` with `body`: the UTF-8 bytes of
/// [`eapi_data`], encrypted with AES-128-ECB under [`EAPI_KEY`] with PKCS#7 padding, in upper
/// case hexadecimal.
pub fn eapi_encrypt(url: &str, body: &str) -> (r: LyrixResult<String>)
    ensures
        r matches Ok(s) && s@ == hex_upper(
            aes128_ecb_pkcs7(EAPI_KEY@, vstd::utf8::encode_utf8(eapi_data(url@, body@))),
        ),
{
    let mut m: Vec<char> = Vec::new();
    crate::text::push_str_chars(&mut m, "nobody");
    crate::text::push_str_chars(&mut m, url);
    crate::text::push_str_chars(&mut m, "use");
    crate::text::push_str_chars(&mut m, body);
    crate::text::push_str_chars(&mut m, "md5forencrypt");
    let message = crate::text::string_of_chars(m.as_slice());
    assert(message@ =~= eapi_message(url@, body@));
    let digest = md5_hex(message.as_str().as_bytes());
    let mut d: Vec<char> = Vec::new();
    crate::text::push_str_chars(&mut d, url);
    crate::text::push_str_chars(&mut d, "-36cd479b6b5-");
    crate::text::push_str_chars(&mut d, body);
    crate::text::push_str_chars(&mut d, "-36cd479b6b5-");
    crate::text::push_str_chars(&mut d, digest.as_str());
    let data = crate::text::string_of_chars(d.as_slice());
    assert(data@ =~= eapi_data(url@, body@));
    aes_ecb_encode_hex(data.as_str())
}

/// The UTF-8 bytes of `data`, encrypted under [`EAPI_KEY`], in upper case hexadecimal.
fn aes_ecb_encode_hex(data: &str) -> (r: LyrixResult<String>)
    ensures
        r matches Ok(s) && s@ == hex_upper(aes128_ecb_pkcs7(EAPI_KEY@, data.spec_bytes())),
{
    let key = EAPI_KEY;
    let encrypted = aes128_ecb_encrypt(&key, data.as_bytes());
    Ok(hex_encode_upper(encrypted.as_slice()))
}

} // verus!
