//! The kinds of failure that the client core reports.
use vstd::prelude::*;

verus! {

/// Why a request could not be built or a response not be framed.
#[derive(Debug, Clone, Copy, PartialEq, Eq, Structural)]
pub enum HttpError {
    /// The URL text could not be parsed.
    UrlParse,
    /// The URL names no host to connect to.
    MissingHost,
    /// The response holds no blank line between its headers and its body.
    Framing,
}

impl HttpError {
    /// A short description of the failure.
    pub fn message(&self) -> (r: &'static str) {
        match self {
            HttpError::UrlParse => "error parsing url",
            HttpError::MissingHost => "url must include host",
            HttpError::Framing => "could not find blank line to indicate where the message body begins",
        }
    }
}

} // verus!
