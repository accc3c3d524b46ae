//! The ways in which fetching a URL can fail.

use crate::gemini::{GeminiError, GeminiErrorView};
use url::ParseError;
use vstd::prelude::*;

verus! {

/// Why a fetch did not end in a response.
#[derive(Debug, PartialEq)]
pub enum FetchError {
    /// The text is not an absolute URL.
    InvalidUrl(ParseError),
    /// The URL has a scheme other than `gemini`.
    UnknownScheme(String),
    /// The URL names no host.
    InvalidHost,
    /// The host is not a DNS name in the syntax that TLS asks for.
    InvalidDnsName,
    /// No connection to the server could be made.
    ConnectionFailed(String),
    /// The request could not be sent.
    SendFailed(String),
    /// Reading the reply broke off with a fault.
    ReadFailed(String),
    /// The reply is not a well-formed response.
    InvalidResponse(GeminiError),
    /// The status of the response falls under no category.
    UnknownStatus(String),
    /// More redirects came in a row than the limit allows.
    TooManyRedirects(u32),
    /// The server answered, but not with success.
    Unsuccessful { status: String, meta: String },
}

/// What a [`FetchError`] holds.
pub enum FetchErrorView {
    InvalidUrl(ParseError),
    UnknownScheme(Seq<char>),
    InvalidHost,
    InvalidDnsName,
    ConnectionFailed(Seq<char>),
    SendFailed(Seq<char>),
    ReadFailed(Seq<char>),
    InvalidResponse(GeminiErrorView),
    UnknownStatus(Seq<char>),
    TooManyRedirects(u32),
    Unsuccessful { status: Seq<char>, meta: Seq<char> },
}

impl View for FetchError {
    type V = FetchErrorView;

    open spec fn view(&self) -> FetchErrorView {
        match self {
            FetchError::InvalidUrl(error) => FetchErrorView::InvalidUrl(*error),
            FetchError::UnknownScheme(scheme) => FetchErrorView::UnknownScheme(scheme@),
            FetchError::InvalidHost => FetchErrorView::InvalidHost,
            FetchError::InvalidDnsName => FetchErrorView::InvalidDnsName,
            FetchError::ConnectionFailed(message) => FetchErrorView::ConnectionFailed(message@),
            FetchError::SendFailed(message) => FetchErrorView::SendFailed(message@),
            FetchError::ReadFailed(message) => FetchErrorView::ReadFailed(message@),
            FetchError::InvalidResponse(error) => FetchErrorView::InvalidResponse(error@),
            FetchError::UnknownStatus(status) => FetchErrorView::UnknownStatus(status@),
            FetchError::TooManyRedirects(limit) => FetchErrorView::TooManyRedirects(*limit),
            FetchError::Unsuccessful { status, meta } => FetchErrorView::Unsuccessful {
                status: status@,
                meta: meta@,
            },
        }
    }
}

/// The view of a fetch outcome: the view of the value or of the error.
pub open spec fn fetch_view<T: View>(outcome: Result<T, FetchError>) -> Result<
    T::V,
    FetchErrorView,
> {
    match outcome {
        Ok(value) => Ok(value@),
        Err(error) => Err(error@),
    }
}

} // verus!
