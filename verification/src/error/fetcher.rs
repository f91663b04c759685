//! Errors of the fetchers.

use vstd::prelude::*;
use crate::text::{decimal, push_decimal, push_str_chars, string_of_chars};

verus! {

/// `serde_json::Error`, carried by [`JsonError`].
#[verifier::external_type_specification]
#[verifier::external_body]
pub struct ExSerdeJsonError(serde_json::Error);

/// Missing or expired credentials.
#[derive(Debug)]
pub enum AuthError {
    /// A token or cookie is missing.
    MissingCredential { provider: String, field: String },
    /// A credential has expired.
    CredentialExpired { provider: String, field: String },
}

/// An HTTP request that failed.
#[derive(Debug)]
pub enum HttpError {
    BadRequest { url: String },
    Unauthorized { url: String },
    Forbidden { url: String },
    NotFound { url: String },
    TooManyRequests { url: String },
    ServerError { url: String },
    BadGateway { url: String },
    ServiceUnavailable { url: String },
    /// An unexpected redirect.
    Redirect { status: u16, url: String },
    /// Another status.
    OtherStatus { status: u16, url: String },
    /// DNS or TCP failure.
    ConnectionFailed { detail: String, url: String },
    Timeout { url: String },
    TlsError { detail: String, url: String },
}

/// A reply of `api` that is not the expected JSON.
#[derive(Debug)]
pub struct JsonError {
    pub api: String,
    pub source: serde_json::Error,
}

/// A proxy that could not be configured.
#[derive(Debug)]
pub enum ProxyError {
    InvalidUrl { url: String, reason: String },
}

/// An error of the fetcher layer.
#[derive(Debug)]
pub enum FetcherError {
    Http(HttpError),
    Json(JsonError),
    Auth(AuthError),
    Proxy(ProxyError),
}

/// The message of a credential error.
pub open spec fn auth_error_text(e: AuthError) -> Seq<char> {
    match e {
        AuthError::MissingCredential { provider, field } => provider@ + ": missing "@ + field@ + ", call set_session first"@,
        AuthError::CredentialExpired { provider, field } => provider@ + ": "@ + field@ + " expired"@,
    }
}

impl AuthError {
    /// The message of the error; see [`auth_error_text`].
    pub fn message(&self) -> (r: String)
        ensures
            r@ == auth_error_text(*self),
    {
        let mut cs: Vec<char> = Vec::new();
        match self {
            AuthError::MissingCredential { provider, field } => {
                push_str_chars(&mut cs, provider.as_str());
                push_str_chars(&mut cs, ": missing ");
                push_str_chars(&mut cs, field.as_str());
                push_str_chars(&mut cs, ", call set_session first");
                assert(cs@ =~= provider@ + ": missing "@ + field@ + ", call set_session first"@);
            },
            AuthError::CredentialExpired { provider, field } => {
                push_str_chars(&mut cs, provider.as_str());
                push_str_chars(&mut cs, ": ");
                push_str_chars(&mut cs, field.as_str());
                push_str_chars(&mut cs, " expired");
                assert(cs@ =~= provider@ + ": "@ + field@ + " expired"@);
            },
        }
        string_of_chars(cs.as_slice())
    }
}

/// The message of an HTTP error.
pub open spec fn http_error_text(e: HttpError) -> Seq<char> {
    match e {
        HttpError::BadRequest { url } => "bad request (400): "@ + url@,
        HttpError::Unauthorized { url } => "unauthorized (401): "@ + url@,
        HttpError::Forbidden { url } => "forbidden (403): "@ + url@,
        HttpError::NotFound { url } => "not found (404): "@ + url@,
        HttpError::TooManyRequests { url } => "too many requests (429): "@ + url@,
        HttpError::ServerError { url } => "server error (500): "@ + url@,
        HttpError::BadGateway { url } => "bad gateway (502): "@ + url@,
        HttpError::ServiceUnavailable { url } => "service unavailable (503): "@ + url@,
        HttpError::Redirect { status, url } => "unexpected redirect ("@ + decimal(status as nat) + "): "@ + url@,
        HttpError::OtherStatus { status, url } => "HTTP "@ + decimal(status as nat) + ": "@ + url@,
        HttpError::ConnectionFailed { detail, url } => "connection failed: "@ + detail@ + " (url="@ + url@ + ")"@,
        HttpError::Timeout { url } => "request timeout: "@ + url@,
        HttpError::TlsError { detail, url } => "TLS error: "@ + detail@ + " (url="@ + url@ + ")"@,
    }
}

impl HttpError {
    /// The message of the error; see [`http_error_text`].
    pub fn message(&self) -> (r: String)
        ensures
            r@ == http_error_text(*self),
    {
        let mut cs: Vec<char> = Vec::new();
        match self {
            HttpError::BadRequest { url } => {
                push_str_chars(&mut cs, "bad request (400): ");
                push_str_chars(&mut cs, url.as_str());
                assert(cs@ =~= "bad request (400): "@ + url@);
            },
            HttpError::Unauthorized { url } => {
                push_str_chars(&mut cs, "unauthorized (401): ");
                push_str_chars(&mut cs, url.as_str());
                assert(cs@ =~= "unauthorized (401): "@ + url@);
            },
            HttpError::Forbidden { url } => {
                push_str_chars(&mut cs, "forbidden (403): ");
                push_str_chars(&mut cs, url.as_str());
                assert(cs@ =~= "forbidden (403): "@ + url@);
            },
            HttpError::NotFound { url } => {
                push_str_chars(&mut cs, "not found (404): ");
                push_str_chars(&mut cs, url.as_str());
                assert(cs@ =~= "not found (404): "@ + url@);
            },
            HttpError::TooManyRequests { url } => {
                push_str_chars(&mut cs, "too many requests (429): ");
                push_str_chars(&mut cs, url.as_str());
                assert(cs@ =~= "too many requests (429): "@ + url@);
            },
            HttpError::ServerError { url } => {
                push_str_chars(&mut cs, "server error (500): ");
                push_str_chars(&mut cs, url.as_str());
                assert(cs@ =~= "server error (500): "@ + url@);
            },
            HttpError::BadGateway { url } => {
                push_str_chars(&mut cs, "bad gateway (502): ");
                push_str_chars(&mut cs, url.as_str());
                assert(cs@ =~= "bad gateway (502): "@ + url@);
            },
            HttpError::ServiceUnavailable { url } => {
                push_str_chars(&mut cs, "service unavailable (503): ");
                push_str_chars(&mut cs, url.as_str());
                assert(cs@ =~= "service unavailable (503): "@ + url@);
            },
            HttpError::Redirect { status, url } => {
                push_str_chars(&mut cs, "unexpected redirect (");
                push_decimal(&mut cs, *status as u64);
                push_str_chars(&mut cs, "): ");
                push_str_chars(&mut cs, url.as_str());
                assert(cs@ =~= "unexpected redirect ("@ + decimal(status as nat) + "): "@ + url@);
            },
            HttpError::OtherStatus { status, url } => {
                push_str_chars(&mut cs, "HTTP ");
                push_decimal(&mut cs, *status as u64);
                push_str_chars(&mut cs, ": ");
                push_str_chars(&mut cs, url.as_str());
                assert(cs@ =~= "HTTP "@ + decimal(status as nat) + ": "@ + url@);
            },
            HttpError::ConnectionFailed { detail, url } => {
                push_str_chars(&mut cs, "connection failed: ");
                push_str_chars(&mut cs, detail.as_str());
                push_str_chars(&mut cs, " (url=");
                push_str_chars(&mut cs, url.as_str());
                push_str_chars(&mut cs, ")");
                assert(cs@ =~= "connection failed: "@ + detail@ + " (url="@ + url@ + ")"@);
            },
            HttpError::Timeout { url } => {
                push_str_chars(&mut cs, "request timeout: ");
                push_str_chars(&mut cs, url.as_str());
                assert(cs@ =~= "request timeout: "@ + url@);
            },
            HttpError::TlsError { detail, url } => {
                push_str_chars(&mut cs, "TLS error: ");
                push_str_chars(&mut cs, detail.as_str());
                push_str_chars(&mut cs, " (url=");
                push_str_chars(&mut cs, url.as_str());
                push_str_chars(&mut cs, ")");
                assert(cs@ =~= "TLS error: "@ + detail@ + " (url="@ + url@ + ")"@);
            },
        }
        string_of_chars(cs.as_slice())
    }
}

/// The message of a proxy error.
pub open spec fn proxy_error_text(e: ProxyError) -> Seq<char> {
    match e {
        ProxyError::InvalidUrl { url, reason } => "invalid proxy URL: "@ + url@ + " ("@ + reason@ + ")"@,
    }
}

impl ProxyError {
    /// The message of the error; see [`proxy_error_text`].
    pub fn message(&self) -> (r: String)
        ensures
            r@ == proxy_error_text(*self),
    {
        let mut cs: Vec<char> = Vec::new();
        match self {
            ProxyError::InvalidUrl { url, reason } => {
                push_str_chars(&mut cs, "invalid proxy URL: ");
                push_str_chars(&mut cs, url.as_str());
                push_str_chars(&mut cs, " (");
                push_str_chars(&mut cs, reason.as_str());
                push_str_chars(&mut cs, ")");
                assert(cs@ =~= "invalid proxy URL: "@ + url@ + " ("@ + reason@ + ")"@);
            },
        }
        string_of_chars(cs.as_slice())
    }
}

/// `serde_json::Error`'s `Display` text (what it says depends on the error, which is not
/// visible here; nothing is stated of it).
#[verifier::external_body]
fn json_error_display(e: &serde_json::Error) -> (r: String) {
    e.to_string()
}

impl JsonError {
    /// The message of the error: the API, then the text of the JSON error.
    pub fn message(&self) -> (r: String)
        ensures
            exists|t: Seq<char>| r@ == self.api@ + " API response parse failed: "@ + t,
    {
        let mut cs: Vec<char> = Vec::new();
        push_str_chars(&mut cs, self.api.as_str());
        push_str_chars(&mut cs, " API response parse failed: ");
        let d = json_error_display(&self.source);
        push_str_chars(&mut cs, d.as_str());
        assert(cs@ =~= self.api@ + " API response parse failed: "@ + d@);
        string_of_chars(cs.as_slice())
    }
}

impl FetcherError {
    /// The message of the error: that of the error it carries.
    pub fn message(&self) -> (r: String)
        ensures
            match *self {
                FetcherError::Http(e) => r@ == http_error_text(e),
                FetcherError::Json(e) => exists|t: Seq<char>| r@ == e.api@
                    + " API response parse failed: "@ + t,
                FetcherError::Auth(e) => r@ == auth_error_text(e),
                FetcherError::Proxy(e) => r@ == proxy_error_text(e),
            },
    {
        match self {
            FetcherError::Http(e) => e.message(),
            FetcherError::Json(e) => e.message(),
            FetcherError::Auth(e) => e.message(),
            FetcherError::Proxy(e) => e.message(),
        }
    }
}

} // verus!
