//! Errors that belong to no single layer.

use vstd::prelude::*;
use crate::text::{push_str_chars, string_of_chars};

verus! {

/// `std::io::Error`, carried by [`GeneralError::Io`].
#[verifier::external_type_specification]
#[verifier::external_body]
pub struct ExIoError(std::io::Error);

/// An error of no single layer.
#[derive(Debug)]
pub enum GeneralError {
    /// Unsupported player or app id.
    UnsupportedPlayer { name: String },
    /// A required field (trial info, track metadata, ...) is missing.
    MissingField { field: String },
    /// An I/O error.
    Io(std::io::Error),
    /// Platform not supported.
    Platform { platform: String },
    /// Should not happen.
    Internal { detail: String },
}

/// The message of an error of no single layer (an I/O error's own text is not stated).
pub open spec fn general_error_text(e: GeneralError) -> Seq<char> {
    match e {
        GeneralError::UnsupportedPlayer { name } => "unsupported player: "@ + name@,
        GeneralError::MissingField { field } => "missing required field: "@ + field@,
        GeneralError::Io(_) => "IO error: "@,
        GeneralError::Platform { platform } => "unsupported platform: "@ + platform@,
        GeneralError::Internal { detail } => "internal error: "@ + detail@,
    }
}

/// `std::io::Error`'s `Display` text (what it says depends on the error, which is not visible
/// here; nothing is stated of it).
#[verifier::external_body]
fn io_error_display(e: &std::io::Error) -> (r: String) {
    e.to_string()
}

impl GeneralError {
    /// The message of the error; see [`general_error_text`]. An I/O error's message is
    /// `IO error: ` followed by the I/O error's own text.
    pub fn message(&self) -> (r: String)
        ensures
            match *self {
                GeneralError::Io(_) => exists|t: Seq<char>| r@ == general_error_text(*self) + t,
                _ => r@ == general_error_text(*self),
            },
    {
        let mut cs: Vec<char> = Vec::new();
        match self {
            GeneralError::UnsupportedPlayer { name } => {
                push_str_chars(&mut cs, "unsupported player: ");
                push_str_chars(&mut cs, name.as_str());
                assert(cs@ =~= "unsupported player: "@ + name@);
            },
            GeneralError::MissingField { field } => {
                push_str_chars(&mut cs, "missing required field: ");
                push_str_chars(&mut cs, field.as_str());
                assert(cs@ =~= "missing required field: "@ + field@);
            },
            GeneralError::Io(io) => {
                push_str_chars(&mut cs, "IO error: ");
                let d = io_error_display(io);
                push_str_chars(&mut cs, d.as_str());
                assert(cs@ =~= "IO error: "@ + d@);
                let r = string_of_chars(cs.as_slice());
                assert(r@ == general_error_text(*self) + d@);
                return r;
            },
            GeneralError::Platform { platform } => {
                push_str_chars(&mut cs, "unsupported platform: ");
                push_str_chars(&mut cs, platform.as_str());
                assert(cs@ =~= "unsupported platform: "@ + platform@);
            },
            GeneralError::Internal { detail } => {
                push_str_chars(&mut cs, "internal error: ");
                push_str_chars(&mut cs, detail.as_str());
                assert(cs@ =~= "internal error: "@ + detail@);
            },
        }
        string_of_chars(cs.as_slice())
    }
}

} // verus!
