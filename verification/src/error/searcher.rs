//! Errors of the searchers.

use vstd::prelude::*;
use crate::text::{push_signed_decimal, push_str_chars, signed_decimal, string_of_chars};

verus! {

/// A search or match that failed.
#[derive(Debug)]
pub enum SearcherError {
    /// The search returned no result.
    NoResults { label: String, query: String },
    /// Every result scored below the threshold.
    LowScore { label: String, score: i8, threshold: i8, query: String },
    /// No result matched the track.
    NoMatch { label: String, title: String },
    /// A result lacks a required field.
    MissingField { label: String, field: String },
}

/// The message of a search error.
pub open spec fn searcher_error_text(e: SearcherError) -> Seq<char> {
    match e {
        SearcherError::NoResults { label, query } => label@ + ": no search results (query="@ + query@ + ")"@,
        SearcherError::LowScore { label, score, threshold, query } => label@ + ": score too low (best="@ + signed_decimal(score as int) + "/"@ + signed_decimal(threshold as int) + ", query="@ + query@ + ")"@,
        SearcherError::NoMatch { label, title } => label@ + ": no matching track found (title="@ + title@ + ")"@,
        SearcherError::MissingField { label, field } => label@ + ": missing required field ("@ + field@ + ")"@,
    }
}

impl SearcherError {
    /// The message of the error; see [`searcher_error_text`].
    pub fn message(&self) -> (r: String)
        ensures
            r@ == searcher_error_text(*self),
    {
        let mut cs: Vec<char> = Vec::new();
        match self {
            SearcherError::NoResults { label, query } => {
                push_str_chars(&mut cs, label.as_str());
                push_str_chars(&mut cs, ": no search results (query=");
                push_str_chars(&mut cs, query.as_str());
                push_str_chars(&mut cs, ")");
                assert(cs@ =~= label@ + ": no search results (query="@ + query@ + ")"@);
            },
            SearcherError::LowScore { label, score, threshold, query } => {
                push_str_chars(&mut cs, label.as_str());
                push_str_chars(&mut cs, ": score too low (best=");
                push_signed_decimal(&mut cs, *score as i64);
                push_str_chars(&mut cs, "/");
                push_signed_decimal(&mut cs, *threshold as i64);
                push_str_chars(&mut cs, ", query=");
                push_str_chars(&mut cs, query.as_str());
                push_str_chars(&mut cs, ")");
                assert(cs@ =~= label@ + ": score too low (best="@ + signed_decimal(score as int) + "/"@ + signed_decimal(threshold as int) + ", query="@ + query@ + ")"@);
            },
            SearcherError::NoMatch { label, title } => {
                push_str_chars(&mut cs, label.as_str());
                push_str_chars(&mut cs, ": no matching track found (title=");
                push_str_chars(&mut cs, title.as_str());
                push_str_chars(&mut cs, ")");
                assert(cs@ =~= label@ + ": no matching track found (title="@ + title@ + ")"@);
            },
            SearcherError::MissingField { label, field } => {
                push_str_chars(&mut cs, label.as_str());
                push_str_chars(&mut cs, ": missing required field (");
                push_str_chars(&mut cs, field.as_str());
                push_str_chars(&mut cs, ")");
                assert(cs@ =~= label@ + ": missing required field ("@ + field@ + ")"@);
            },
        }
        string_of_chars(cs.as_slice())
    }
}

} // verus!
