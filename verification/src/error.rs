//! Error types: the structured parse errors of the message grammar, and the
//! general library error carrying a message.

use vstd::prelude::*;

verus! {

/// A structured failure of the conventional-commit grammar or of the
/// stricter authoring-time validation.
#[derive(Debug, Clone, Copy, PartialEq, Eq, Structural)]
pub enum ConvcoError {
    /// The subject line has no `": "` separator where one is required.
    MissingSeparator,
    /// The subject line does not start with a non-empty lowercase type token.
    MissingType,
    /// A scope is opened but is empty, unterminated, or not lowercase.
    InvalidScope,
    /// The description is empty or does not start with a lowercase letter.
    InvalidDescription,
    /// The line after the subject is not blank.
    MissingBodySeparator,
    /// A line in the footer is not a `key: value` pair with a valid key.
    InvalidFooterLine,
    /// The message carries two competing breaking-change trailers.
    DuplicateBreakingChange,
    /// An issue-reference trailer does not hold `#` followed by a number.
    InvalidIssueReference,
}

/// General library error: a failure described by a message.
#[derive(Debug)]
pub struct Error {
    message: String,
}

impl Error {
    /// The text of the error, as a character sequence.
    pub closed spec fn text(&self) -> Seq<char> {
        self.message@
    }

    /// Creates an [`Error`] from a string.
    pub fn msg(msg: &str) -> (r: Error)
        ensures
            r.text() == msg@,
    {
        Error { message: msg.to_owned() }
    }

    /// The text of the error.
    pub fn message(&self) -> (r: &str)
        ensures
            r@ == self.text(),
    {
        self.message.as_str()
    }
}

} // verus!
