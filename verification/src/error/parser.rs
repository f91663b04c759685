//! Errors of the parsers.

use vstd::prelude::*;
use crate::text::{decimal, push_decimal, push_str_chars, string_of_chars};

verus! {

/// Lyrics text that could not be parsed.
#[derive(Debug)]
pub enum ParseError {
    /// Missing `[`, `]` or `,`, or a tag of an unexpected form.
    InvalidStructure { detail: String },
    /// A start time or duration that is not an integer.
    TimestampParse { field: String, raw: String },
    /// `t2 - t1` underflows or does not fit in a `u16`.
    OffsetOverflow { t1: u32, t2: u32 },
    /// A malformed syllable tag.
    SyllableParse { detail: String },
    /// Parsed, but no line.
    EmptyContent,
    /// Malformed plain LRC.
    InvalidLrcFormat { detail: String },
    /// An unknown sync type.
    UnknownSyncType,
}

/// Lyrics that could not be decrypted.
#[derive(Debug)]
pub enum DecryptError {
    /// Base64 decoding failed.
    Base64Decode { detail: String, len: usize },
    /// XOR decryption failed.
    XorDecrypt { detail: String },
    /// Inflating failed.
    Deflate { detail: String },
    /// AES-128-ECB decryption failed.
    AesDecrypt { detail: String },
    /// Triple-DES decryption failed.
    TripleDesDecrypt { detail: String },
    /// The decrypted bytes are not UTF-8.
    Utf8Decode { detail: String },
    /// A key of the wrong length.
    InvalidKeyLength { expected: usize, actual: usize },
}

/// A one-time password that could not be generated.
#[derive(Debug)]
pub enum TotpGenError {
    /// An index outside `0..=2`.
    InvalidIndex { index: usize },
    /// The clock is before the Unix epoch.
    ClockError,
}

/// An error of the parser layer.
#[derive(Debug)]
pub enum ParserError {
    Parse(ParseError),
    Decrypt(DecryptError),
    TotpGenerate(TotpGenError),
}

/// The message of a parse error.
pub open spec fn parse_error_text(e: ParseError) -> Seq<char> {
    match e {
        ParseError::InvalidStructure { detail } => "invalid lyrics structure: "@ + detail@,
        ParseError::TimestampParse { field, raw } => "timestamp parse error: field="@ + field@ + ", raw="@ + raw@,
        ParseError::OffsetOverflow { t1, t2 } => "offset overflow: t1="@ + decimal(t1 as nat) + ", t2="@ + decimal(t2 as nat),
        ParseError::SyllableParse { detail } => "syllable parse error: "@ + detail@,
        ParseError::EmptyContent => "empty lyrics content"@,
        ParseError::InvalidLrcFormat { detail } => "invalid LRC format: "@ + detail@,
        ParseError::UnknownSyncType => "unknown lyrics sync type"@,
    }
}

impl ParseError {
    /// The message of the error; see [`parse_error_text`].
    pub fn message(&self) -> (r: String)
        ensures
            r@ == parse_error_text(*self),
    {
        let mut cs: Vec<char> = Vec::new();
        match self {
            ParseError::InvalidStructure { detail } => {
                push_str_chars(&mut cs, "invalid lyrics structure: ");
                push_str_chars(&mut cs, detail.as_str());
                assert(cs@ =~= "invalid lyrics structure: "@ + detail@);
            },
            ParseError::TimestampParse { field, raw } => {
                push_str_chars(&mut cs, "timestamp parse error: field=");
                push_str_chars(&mut cs, field.as_str());
                push_str_chars(&mut cs, ", raw=");
                push_str_chars(&mut cs, raw.as_str());
                assert(cs@ =~= "timestamp parse error: field="@ + field@ + ", raw="@ + raw@);
            },
            ParseError::OffsetOverflow { t1, t2 } => {
                push_str_chars(&mut cs, "offset overflow: t1=");
                push_decimal(&mut cs, *t1 as u64);
                push_str_chars(&mut cs, ", t2=");
                push_decimal(&mut cs, *t2 as u64);
                assert(cs@ =~= "offset overflow: t1="@ + decimal(t1 as nat) + ", t2="@ + decimal(t2 as nat));
            },
            ParseError::SyllableParse { detail } => {
                push_str_chars(&mut cs, "syllable parse error: ");
                push_str_chars(&mut cs, detail.as_str());
                assert(cs@ =~= "syllable parse error: "@ + detail@);
            },
            ParseError::EmptyContent => {
                push_str_chars(&mut cs, "empty lyrics content");
                assert(cs@ =~= "empty lyrics content"@);
            },
            ParseError::InvalidLrcFormat { detail } => {
                push_str_chars(&mut cs, "invalid LRC format: ");
                push_str_chars(&mut cs, detail.as_str());
                assert(cs@ =~= "invalid LRC format: "@ + detail@);
            },
            ParseError::UnknownSyncType => {
                push_str_chars(&mut cs, "unknown lyrics sync type");
                assert(cs@ =~= "unknown lyrics sync type"@);
            },
        }
        string_of_chars(cs.as_slice())
    }
}

/// The message of a decryption error.
pub open spec fn decrypt_error_text(e: DecryptError) -> Seq<char> {
    match e {
        DecryptError::Base64Decode { detail, len } => "base64 decode failed: "@ + detail@ + " (len="@ + decimal(len as nat) + ")"@,
        DecryptError::XorDecrypt { detail } => "XOR decrypt failed: "@ + detail@,
        DecryptError::Deflate { detail } => "deflate decompress failed: "@ + detail@,
        DecryptError::AesDecrypt { detail } => "AES decrypt failed: "@ + detail@,
        DecryptError::TripleDesDecrypt { detail } => "3DES decrypt failed: "@ + detail@,
        DecryptError::Utf8Decode { detail } => "decrypted data is not valid UTF-8: "@ + detail@,
        DecryptError::InvalidKeyLength { expected, actual } => "invalid key length: expected="@ + decimal(expected as nat) + ", actual="@ + decimal(actual as nat),
    }
}

impl DecryptError {
    /// The message of the error; see [`decrypt_error_text`].
    pub fn message(&self) -> (r: String)
        ensures
            r@ == decrypt_error_text(*self),
    {
        let mut cs: Vec<char> = Vec::new();
        match self {
            DecryptError::Base64Decode { detail, len } => {
                push_str_chars(&mut cs, "base64 decode failed: ");
                push_str_chars(&mut cs, detail.as_str());
                push_str_chars(&mut cs, " (len=");
                push_decimal(&mut cs, *len as u64);
                push_str_chars(&mut cs, ")");
                assert(cs@ =~= "base64 decode failed: "@ + detail@ + " (len="@ + decimal(len as nat) + ")"@);
            },
            DecryptError::XorDecrypt { detail } => {
                push_str_chars(&mut cs, "XOR decrypt failed: ");
                push_str_chars(&mut cs, detail.as_str());
                assert(cs@ =~= "XOR decrypt failed: "@ + detail@);
            },
            DecryptError::Deflate { detail } => {
                push_str_chars(&mut cs, "deflate decompress failed: ");
                push_str_chars(&mut cs, detail.as_str());
                assert(cs@ =~= "deflate decompress failed: "@ + detail@);
            },
            DecryptError::AesDecrypt { detail } => {
                push_str_chars(&mut cs, "AES decrypt failed: ");
                push_str_chars(&mut cs, detail.as_str());
                assert(cs@ =~= "AES decrypt failed: "@ + detail@);
            },
            DecryptError::TripleDesDecrypt { detail } => {
                push_str_chars(&mut cs, "3DES decrypt failed: ");
                push_str_chars(&mut cs, detail.as_str());
                assert(cs@ =~= "3DES decrypt failed: "@ + detail@);
            },
            DecryptError::Utf8Decode { detail } => {
                push_str_chars(&mut cs, "decrypted data is not valid UTF-8: ");
                push_str_chars(&mut cs, detail.as_str());
                assert(cs@ =~= "decrypted data is not valid UTF-8: "@ + detail@);
            },
            DecryptError::InvalidKeyLength { expected, actual } => {
                push_str_chars(&mut cs, "invalid key length: expected=");
                push_decimal(&mut cs, *expected as u64);
                push_str_chars(&mut cs, ", actual=");
                push_decimal(&mut cs, *actual as u64);
                assert(cs@ =~= "invalid key length: expected="@ + decimal(expected as nat) + ", actual="@ + decimal(actual as nat));
            },
        }
        string_of_chars(cs.as_slice())
    }
}

/// The message of a one-time password error.
pub open spec fn totp_error_text(e: TotpGenError) -> Seq<char> {
    match e {
        TotpGenError::InvalidIndex { index } => "invalid TOTP index: "@ + decimal(index as nat) + " (valid: 0/1/2)"@,
        TotpGenError::ClockError => "system clock error: time is before Unix epoch"@,
    }
}

impl TotpGenError {
    /// The message of the error; see [`totp_error_text`].
    pub fn message(&self) -> (r: String)
        ensures
            r@ == totp_error_text(*self),
    {
        let mut cs: Vec<char> = Vec::new();
        match self {
            TotpGenError::InvalidIndex { index } => {
                push_str_chars(&mut cs, "invalid TOTP index: ");
                push_decimal(&mut cs, *index as u64);
                push_str_chars(&mut cs, " (valid: 0/1/2)");
                assert(cs@ =~= "invalid TOTP index: "@ + decimal(index as nat) + " (valid: 0/1/2)"@);
            },
            TotpGenError::ClockError => {
                push_str_chars(&mut cs, "system clock error: time is before Unix epoch");
                assert(cs@ =~= "system clock error: time is before Unix epoch"@);
            },
        }
        string_of_chars(cs.as_slice())
    }
}

impl ParserError {
    /// The message of the error: that of the error it carries.
    pub fn message(&self) -> (r: String)
        ensures
            r@ == match *self {
                ParserError::Parse(e) => parse_error_text(e),
                ParserError::Decrypt(e) => decrypt_error_text(e),
                ParserError::TotpGenerate(e) => totp_error_text(e),
            },
    {
        match self {
            ParserError::Parse(e) => e.message(),
            ParserError::Decrypt(e) => e.message(),
            ParserError::TotpGenerate(e) => e.message(),
        }
    }
}

} // verus!
