//! The library's error type: a kind drawn from the fixed taxonomy, plus a
//! human-readable diagnostic text.

use vstd::prelude::*;

verus! {

/// What went wrong. `NoMatch` is the non-exceptional "no filter applies"
/// signal from the store's match operation.
#[derive(Clone, Copy, Debug, PartialEq, Eq, Structural)]
pub enum UserBotErrorKind {
    MissingParameter,
    ParseError,
    StorageUnavailable,
    StorageWriteFailed,
    FetchFailed,
    NoMatch,
}

#[derive(Debug)]
pub struct UserBotError {
    kind: UserBotErrorKind,
    text: String,
}

impl UserBotError {
    /// Create a new error of the given kind with a diagnostic text.
    pub fn new(kind: UserBotErrorKind, text: &str) -> (e: UserBotError)
        ensures
            e.spec_kind() == kind,
            e.spec_text() == text@,
    {
        UserBotError { kind: kind, text: text.to_owned() }
    }

    /// The kind of this error.
    pub fn kind(&self) -> (k: UserBotErrorKind)
        ensures
            k == self.spec_kind(),
    {
        self.kind
    }

    /// The diagnostic text of this error.
    pub fn text(&self) -> (t: &str)
        ensures
            t@ == self.spec_text(),
    {
        self.text.as_str()
    }

    /// The kind, for use in contracts.
    pub closed spec fn spec_kind(&self) -> UserBotErrorKind {
        self.kind
    }

    /// The diagnostic text, for use in contracts.
    pub closed spec fn spec_text(&self) -> Seq<char> {
        self.text@
    }
}

} // verus!
