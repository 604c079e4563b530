//! What can go wrong in a lookup, and how a failure is reported.

use crate::query::MAX_QUERY_LEN;
use crate::text::{decimal, decimal_string};
use vstd::prelude::*;
use vstd::string::*;

verus! {

/// Why a query was turned down before any backend was asked.
#[derive(Clone, Copy, Debug, PartialEq, Eq, Structural)]
pub enum InputFault {
    /// The query is empty once its outer white space is gone.
    EmptyQuery,
    /// The trimmed query has more characters than a query may have.
    QueryTooLong,
    /// A language code does not have the width that is asked for.
    LanguageCode { width: usize },
}

/// A failed lookup.
#[derive(Clone, Debug, PartialEq, Eq)]
pub enum LexError {
    /// The caller can mend the input; nothing was asked of a backend.
    InvalidInput(InputFault),
    /// The generative backend could not be reached.
    UpstreamTransport { message: String },
    /// The generative backend answered, but not with what was asked for.
    /// `preview` holds the beginning of a payload that could not be read.
    UpstreamFormat { message: String, preview: Option<String> },
    /// The store of meanings failed to run a query.
    StoreError { message: String },
}

/// What a [`LexError`] says.
pub enum LexErrorView {
    InvalidInput(InputFault),
    UpstreamTransport { message: Seq<char> },
    UpstreamFormat { message: Seq<char>, preview: Option<Seq<char>> },
    StoreError { message: Seq<char> },
}

impl View for LexError {
    type V = LexErrorView;

    open spec fn view(&self) -> LexErrorView {
        match self {
            LexError::InvalidInput(f) => LexErrorView::InvalidInput(*f),
            LexError::UpstreamTransport { message } => LexErrorView::UpstreamTransport {
                message: message@,
            },
            LexError::UpstreamFormat { message, preview } => LexErrorView::UpstreamFormat {
                message: message@,
                preview: match preview {
                    Some(p) => Some(p@),
                    None => None,
                },
            },
            LexError::StoreError { message } => LexErrorView::StoreError { message: message@ },
        }
    }
}

/// The status with which a failure of the generative backend is passed on.
pub const BAD_GATEWAY: u16 = 502;

/// The status with which a failure of the store is passed on.
pub const INTERNAL_SERVER_ERROR: u16 = 500;

impl InputFault {
    /// The sentence that tells the caller what to mend.
    pub open spec fn spec_message(self) -> Seq<char> {
        match self {
            InputFault::EmptyQuery => "query must not be empty"@,
            InputFault::QueryTooLong => "query must not longer than "@ + decimal(
                MAX_QUERY_LEN as nat,
            ),
            InputFault::LanguageCode { width } => "languages must be ISO-"@ + decimal(width as nat)
                + " ("@ + decimal(width as nat) + " letters)"@,
        }
    }

    /// The sentence that tells the caller what to mend.
    pub fn message(&self) -> (m: String)
        ensures
            m@ == self.spec_message(),
    {
        match self {
            InputFault::EmptyQuery => String::from_str("query must not be empty"),
            InputFault::QueryTooLong => {
                let mut m = String::from_str("query must not longer than ");
                m.append(decimal_string(MAX_QUERY_LEN).as_str());
                m
            },
            InputFault::LanguageCode { width } => {
                let digits = decimal_string(*width);
                let mut m = String::from_str("languages must be ISO-");
                m.append(digits.as_str());
                m.append(" (");
                m.append(digits.as_str());
                m.append(" letters)");
                m
            },
        }
    }
}

impl LexErrorView {
    /// The tag by which a client tells the kinds of failure apart.
    pub open spec fn code(self) -> Seq<char> {
        match self {
            LexErrorView::InvalidInput(_) => "BAD_USER_INPUT"@,
            LexErrorView::UpstreamTransport { .. } => "UPSTREAM_LLM"@,
            LexErrorView::UpstreamFormat { .. } => "UPSTREAM_LLM"@,
            LexErrorView::StoreError { .. } => "PANLEX_SQLITE"@,
        }
    }

    /// The status that goes with the failure: that of a gateway for the
    /// generative backend, that of an internal failure for the store, none
    /// for an input that the caller can mend.
    pub open spec fn http_status(self) -> Option<u16> {
        match self {
            LexErrorView::InvalidInput(_) => None,
            LexErrorView::UpstreamTransport { .. } => Some(BAD_GATEWAY),
            LexErrorView::UpstreamFormat { .. } => Some(BAD_GATEWAY),
            LexErrorView::StoreError { .. } => Some(INTERNAL_SERVER_ERROR),
        }
    }

    /// The text of the failure.
    pub open spec fn message(self) -> Seq<char> {
        match self {
            LexErrorView::InvalidInput(f) => f.spec_message(),
            LexErrorView::UpstreamTransport { message } => message,
            LexErrorView::UpstreamFormat { message, .. } => message,
            LexErrorView::StoreError { message } => message,
        }
    }
}

impl LexError {
    /// The tag by which a client tells the kinds of failure apart.
    pub fn code(&self) -> (c: &'static str)
        ensures
            c@ == self@.code(),
    {
        match self {
            LexError::InvalidInput(_) => "BAD_USER_INPUT",
            LexError::UpstreamTransport { .. } => "UPSTREAM_LLM",
            LexError::UpstreamFormat { .. } => "UPSTREAM_LLM",
            LexError::StoreError { .. } => "PANLEX_SQLITE",
        }
    }

    /// The status that goes with the failure, if any.
    pub fn http_status(&self) -> (s: Option<u16>)
        ensures
            s == self@.http_status(),
    {
        match self {
            LexError::InvalidInput(_) => None,
            LexError::UpstreamTransport { .. } => Some(BAD_GATEWAY),
            LexError::UpstreamFormat { .. } => Some(BAD_GATEWAY),
            LexError::StoreError { .. } => Some(INTERNAL_SERVER_ERROR),
        }
    }

    /// The text of the failure.
    pub fn message(&self) -> (m: String)
        ensures
            m@ == self@.message(),
    {
        match self {
            LexError::InvalidInput(f) => f.message(),
            LexError::UpstreamTransport { message } => message.clone(),
            LexError::UpstreamFormat { message, .. } => message.clone(),
            LexError::StoreError { message } => message.clone(),
        }
    }
}

} // verus!
