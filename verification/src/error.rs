//! The failures that the core reports.

use vstd::prelude::*;
use vstd::string::*;

verus! {

/// A typed failure. Every operation of the core returns one of these rather
/// than aborting.
#[derive(Debug, PartialEq, Eq)]
pub enum Error {
    /// A file, device, sync record, object or manifest is missing; the text
    /// names what was looked for.
    NotFound(String),
    /// A record for this path exists already.
    AlreadyExists(String),
    /// The target is not of the kind that was expected.
    InvalidPath(String),
    /// The storage underneath failed.
    Io(String),
    /// A persisted document is corrupt or malformed.
    Serialization(String),
    /// The configuration is unreadable or invalid.
    Config(String),
}

impl Clone for Error {
    fn clone(&self) -> (copy: Self)
        ensures
            copy == *self,
    {
        match self {
            Error::NotFound(s) => Error::NotFound(s.clone()),
            Error::AlreadyExists(s) => Error::AlreadyExists(s.clone()),
            Error::InvalidPath(s) => Error::InvalidPath(s.clone()),
            Error::Io(s) => Error::Io(s.clone()),
            Error::Serialization(s) => Error::Serialization(s.clone()),
            Error::Config(s) => Error::Config(s.clone()),
        }
    }
}

impl Error {
    /// Whether this is the report that `what` is missing.
    pub open spec fn is_not_found(self, what: Seq<char>) -> bool {
        self matches Error::NotFound(s) && s@ == what
    }

    /// Whether this is the report that `what` exists already.
    pub open spec fn is_already_exists(self, what: Seq<char>) -> bool {
        self matches Error::AlreadyExists(s) && s@ == what
    }

    /// The text that belongs to the failure, without the description of its
    /// kind.
    pub open spec fn detail(self) -> Seq<char> {
        match self {
            Error::NotFound(s) => s@,
            Error::AlreadyExists(s) => s@,
            Error::InvalidPath(s) => s@,
            Error::Io(s) => s@,
            Error::Serialization(s) => s@,
            Error::Config(s) => s@,
        }
    }

    /// The words that introduce each kind of failure in a message.
    pub open spec fn heading(self) -> Seq<char> {
        match self {
            Error::NotFound(_) => "File not found: "@,
            Error::AlreadyExists(_) => "File already exists: "@,
            Error::InvalidPath(_) => "Invalid path: "@,
            Error::Io(_) => "IO error: "@,
            Error::Serialization(_) => "Serialization error: "@,
            Error::Config(_) => "Configuration error: "@,
        }
    }

    /// The message shown to a user: the heading of the kind, then the detail.
    pub fn message(&self) -> (text: String)
        ensures
            text@ == self.heading() + self.detail(),
    {
        match self {
            Error::NotFound(s) => String::from_str("File not found: ").concat(s.as_str()),
            Error::AlreadyExists(s) => String::from_str("File already exists: ").concat(
                s.as_str(),
            ),
            Error::InvalidPath(s) => String::from_str("Invalid path: ").concat(s.as_str()),
            Error::Io(s) => String::from_str("IO error: ").concat(s.as_str()),
            Error::Serialization(s) => String::from_str("Serialization error: ").concat(
                s.as_str(),
            ),
            Error::Config(s) => String::from_str("Configuration error: ").concat(s.as_str()),
        }
    }
}

} // verus!
