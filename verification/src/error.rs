//! The ways in which an operation of the client fails.

use vstd::prelude::*;
use vstd::string::StringExecFns;

verus! {

/// A failure of one call. Every failure ends the call it occurs in.
#[derive(Debug, Clone, PartialEq, Eq)]
pub enum ClientError {
    /// The request could not be sent, or its answer could not be read.
    Network(String),
    /// The backend's answer is not a JSON document of the expected shape.
    Parse {
        /// What was wrong with the answer.
        detail: String,
        /// The answer as it was received.
        raw: String,
    },
    /// The cache directory or a cache file could not be written.
    Io(String),
    /// The address has no file name, so that no image can be fetched for it;
    /// it is held here.
    InvalidUrl(String),
}

/// What a `ClientError` holds.
pub enum ClientErrorView {
    Network(Seq<char>),
    Parse { detail: Seq<char>, raw: Seq<char> },
    Io(Seq<char>),
    InvalidUrl(Seq<char>),
}

impl ClientErrorView {
    /// The text shown to the caller.
    pub open spec fn message(self) -> Seq<char> {
        match self {
            ClientErrorView::Network(detail) => detail,
            ClientErrorView::Parse { detail, raw } => "JSON parse error: "@ + detail
                + " for text: "@ + raw,
            ClientErrorView::Io(detail) => detail,
            ClientErrorView::InvalidUrl(url) => "URL has no file name: "@ + url,
        }
    }
}

impl View for ClientError {
    type V = ClientErrorView;

    open spec fn view(&self) -> ClientErrorView {
        match self {
            ClientError::Network(detail) => ClientErrorView::Network(detail@),
            ClientError::Parse { detail, raw } => ClientErrorView::Parse {
                detail: detail@,
                raw: raw@,
            },
            ClientError::Io(detail) => ClientErrorView::Io(detail@),
            ClientError::InvalidUrl(url) => ClientErrorView::InvalidUrl(url@),
        }
    }
}

impl ClientError {
    /// The failure as one line of text for the caller.
    pub fn message(&self) -> (text: String)
        ensures
            text@ == self@.message(),
    {
        match self {
            ClientError::Network(detail) => detail.clone(),
            ClientError::Parse { detail, raw } => {
                let mut text = String::from_str("JSON parse error: ");
                text.append(detail.as_str());
                text.append(" for text: ");
                text.append(raw.as_str());
                text
            },
            ClientError::Io(detail) => detail.clone(),
            ClientError::InvalidUrl(url) => {
                let mut text = String::from_str("URL has no file name: ");
                text.append(url.as_str());
                text
            },
        }
    }
}

} // verus!
