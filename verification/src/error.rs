//! The library's errors, by layer: parsers, fetchers, searchers and the rest.

pub mod fetcher;
pub mod general;
pub mod parser;
pub mod searcher;

use vstd::prelude::*;
use crate::error::fetcher::{AuthError, FetcherError, HttpError, JsonError, ProxyError};
use crate::error::general::GeneralError;
use crate::error::parser::{DecryptError, ParseError, ParserError, TotpGenError};
use crate::error::searcher::SearcherError;

verus! {

/// The library's result type.
pub type LyrixResult<T> = Result<T, LyrixError>;

/// Any error of the library.
#[derive(Debug)]
pub enum LyrixError {
    /// Parser layer.
    Parser(ParserError),
    /// Fetcher layer.
    Fetcher(FetcherError),
    /// Searcher layer.
    Searcher(SearcherError),
    /// Anything else.
    General(GeneralError),
}

impl From<GeneralError> for LyrixError {
    fn from(e: GeneralError) -> (r: Self) {
        LyrixError::General(e)
    }
}

impl vstd::std_specs::convert::FromSpecImpl<GeneralError> for LyrixError {
    open spec fn obeys_from_spec() -> bool {
        true
    }

    open spec fn from_spec(e: GeneralError) -> LyrixError {
        LyrixError::General(e)
    }
}

impl From<SearcherError> for LyrixError {
    fn from(e: SearcherError) -> (r: Self) {
        LyrixError::Searcher(e)
    }
}

impl vstd::std_specs::convert::FromSpecImpl<SearcherError> for LyrixError {
    open spec fn obeys_from_spec() -> bool {
        true
    }

    open spec fn from_spec(e: SearcherError) -> LyrixError {
        LyrixError::Searcher(e)
    }
}

impl From<ParserError> for LyrixError {
    fn from(e: ParserError) -> (r: Self) {
        LyrixError::Parser(e)
    }
}

impl vstd::std_specs::convert::FromSpecImpl<ParserError> for LyrixError {
    open spec fn obeys_from_spec() -> bool {
        true
    }

    open spec fn from_spec(e: ParserError) -> LyrixError {
        LyrixError::Parser(e)
    }
}

impl From<FetcherError> for LyrixError {
    fn from(e: FetcherError) -> (r: Self) {
        LyrixError::Fetcher(e)
    }
}

impl vstd::std_specs::convert::FromSpecImpl<FetcherError> for LyrixError {
    open spec fn obeys_from_spec() -> bool {
        true
    }

    open spec fn from_spec(e: FetcherError) -> LyrixError {
        LyrixError::Fetcher(e)
    }
}

impl From<ParseError> for LyrixError {
    fn from(e: ParseError) -> (r: Self) {
        LyrixError::Parser(ParserError::Parse(e))
    }
}

impl vstd::std_specs::convert::FromSpecImpl<ParseError> for LyrixError {
    open spec fn obeys_from_spec() -> bool {
        true
    }

    open spec fn from_spec(e: ParseError) -> LyrixError {
        LyrixError::Parser(ParserError::Parse(e))
    }
}

impl From<DecryptError> for LyrixError {
    fn from(e: DecryptError) -> (r: Self) {
        LyrixError::Parser(ParserError::Decrypt(e))
    }
}

impl vstd::std_specs::convert::FromSpecImpl<DecryptError> for LyrixError {
    open spec fn obeys_from_spec() -> bool {
        true
    }

    open spec fn from_spec(e: DecryptError) -> LyrixError {
        LyrixError::Parser(ParserError::Decrypt(e))
    }
}

impl From<TotpGenError> for LyrixError {
    fn from(e: TotpGenError) -> (r: Self) {
        LyrixError::Parser(ParserError::TotpGenerate(e))
    }
}

impl vstd::std_specs::convert::FromSpecImpl<TotpGenError> for LyrixError {
    open spec fn obeys_from_spec() -> bool {
        true
    }

    open spec fn from_spec(e: TotpGenError) -> LyrixError {
        LyrixError::Parser(ParserError::TotpGenerate(e))
    }
}

impl From<HttpError> for LyrixError {
    fn from(e: HttpError) -> (r: Self) {
        LyrixError::Fetcher(FetcherError::Http(e))
    }
}

impl vstd::std_specs::convert::FromSpecImpl<HttpError> for LyrixError {
    open spec fn obeys_from_spec() -> bool {
        true
    }

    open spec fn from_spec(e: HttpError) -> LyrixError {
        LyrixError::Fetcher(FetcherError::Http(e))
    }
}

impl From<JsonError> for LyrixError {
    fn from(e: JsonError) -> (r: Self) {
        LyrixError::Fetcher(FetcherError::Json(e))
    }
}

impl vstd::std_specs::convert::FromSpecImpl<JsonError> for LyrixError {
    open spec fn obeys_from_spec() -> bool {
        true
    }

    open spec fn from_spec(e: JsonError) -> LyrixError {
        LyrixError::Fetcher(FetcherError::Json(e))
    }
}

impl From<AuthError> for LyrixError {
    fn from(e: AuthError) -> (r: Self) {
        LyrixError::Fetcher(FetcherError::Auth(e))
    }
}

impl vstd::std_specs::convert::FromSpecImpl<AuthError> for LyrixError {
    open spec fn obeys_from_spec() -> bool {
        true
    }

    open spec fn from_spec(e: AuthError) -> LyrixError {
        LyrixError::Fetcher(FetcherError::Auth(e))
    }
}

impl From<ProxyError> for LyrixError {
    fn from(e: ProxyError) -> (r: Self) {
        LyrixError::Fetcher(FetcherError::Proxy(e))
    }
}

impl vstd::std_specs::convert::FromSpecImpl<ProxyError> for LyrixError {
    open spec fn obeys_from_spec() -> bool {
        true
    }

    open spec fn from_spec(e: ProxyError) -> LyrixError {
        LyrixError::Fetcher(FetcherError::Proxy(e))
    }
}

impl LyrixError {
    /// The message of the error: that of the error it carries.
    pub fn message(&self) -> (r: String)
        ensures
            match *self {
                LyrixError::Parser(e) => r@ == match e {
                    ParserError::Parse(p) => crate::error::parser::parse_error_text(p),
                    ParserError::Decrypt(d) => crate::error::parser::decrypt_error_text(d),
                    ParserError::TotpGenerate(t) => crate::error::parser::totp_error_text(t),
                },
                LyrixError::Searcher(e) => r@ == crate::error::searcher::searcher_error_text(e),
                LyrixError::Fetcher(e) => match e {
                    FetcherError::Http(h) => r@ == crate::error::fetcher::http_error_text(h),
                    FetcherError::Json(j) => exists|t: Seq<char>| r@ == j.api@
                        + " API response parse failed: "@ + t,
                    FetcherError::Auth(a) => r@ == crate::error::fetcher::auth_error_text(a),
                    FetcherError::Proxy(p) => r@ == crate::error::fetcher::proxy_error_text(p),
                },
                LyrixError::General(e) => match e {
                    GeneralError::Io(_) => exists|t: Seq<char>| r@
                        == crate::error::general::general_error_text(e) + t,
                    _ => r@ == crate::error::general::general_error_text(e),
                },
            },
    {
        match self {
            LyrixError::Parser(e) => e.message(),
            LyrixError::Searcher(e) => e.message(),
            LyrixError::Fetcher(e) => e.message(),
            LyrixError::General(e) => e.message(),
        }
    }
}

} // verus!
