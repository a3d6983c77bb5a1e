//! The one error type of the library.

use vstd::prelude::*;
use vstd::string::StringExecFns;

verus! {

/// Why an operation failed.
#[derive(Debug)]
pub enum AnyError {
    /// The server asked for an authentication method other than cleartext or
    /// MD5 passwords.
    UnsupportedAuthentication,
    /// A message arrived that the startup sequence has no place for.
    UnexpectedMessage,
    /// A message other than the awaited completion or an error arrived after a
    /// Parse or Bind.
    InvalidMessage,
    /// The server answered with an ErrorResponse; the text holds its fields.
    Server(String),
    /// A value cannot be put on the wire: a name with an embedded NUL, or a
    /// length that the protocol's 16 and 32 bit counters cannot hold.
    Encode,
    /// A row does not hold what the statement is known to return.
    Decode,
    /// A collection cursor is neither `before-N` nor `after-N`.
    UnknownCursor,
}

/// The errors of the entity, collection and queue operations.
pub type StoreError = AnyError;

/// An error by its text.
pub enum AnyErrorView {
    UnsupportedAuthentication,
    UnexpectedMessage,
    InvalidMessage,
    Server(Seq<char>),
    Encode,
    Decode,
    UnknownCursor,
}

impl View for AnyError {
    type V = AnyErrorView;

    open spec fn view(&self) -> AnyErrorView {
        match self {
            AnyError::UnsupportedAuthentication => AnyErrorView::UnsupportedAuthentication,
            AnyError::UnexpectedMessage => AnyErrorView::UnexpectedMessage,
            AnyError::InvalidMessage => AnyErrorView::InvalidMessage,
            AnyError::Server(text) => AnyErrorView::Server(text@),
            AnyError::Encode => AnyErrorView::Encode,
            AnyError::Decode => AnyErrorView::Decode,
            AnyError::UnknownCursor => AnyErrorView::UnknownCursor,
        }
    }
}

/// The text that each error is reported with.
pub open spec fn error_text(e: AnyErrorView) -> Seq<char> {
    match e {
        AnyErrorView::UnsupportedAuthentication => "unsupported authentication method"@,
        AnyErrorView::UnexpectedMessage => "unexpected message at this time"@,
        AnyErrorView::InvalidMessage => "should not occur here"@,
        AnyErrorView::Server(text) => text,
        AnyErrorView::Encode => "value cannot be transmitted"@,
        AnyErrorView::Decode => "invalid row contents"@,
        AnyErrorView::UnknownCursor => "unknown collection cursor"@,
    }
}

impl AnyError {
    /// The text of the error.
    pub fn message(&self) -> (text: String)
        ensures
            text@ == error_text(self@),
    {
        match self {
            AnyError::UnsupportedAuthentication => String::from_str(
                "unsupported authentication method",
            ),
            AnyError::UnexpectedMessage => String::from_str("unexpected message at this time"),
            AnyError::InvalidMessage => String::from_str("should not occur here"),
            AnyError::Server(text) => text.clone(),
            AnyError::Encode => String::from_str("value cannot be transmitted"),
            AnyError::Decode => String::from_str("invalid row contents"),
            AnyError::UnknownCursor => String::from_str("unknown collection cursor"),
        }
    }
}

} // verus!
