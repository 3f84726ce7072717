//! The failures of a run.

use ara_reporting::Report;
use vstd::prelude::*;

verus! {

/// The diagnostic report of the parsing engine; its contents are not read here.
#[verifier::external_type_specification]
#[verifier::external_body]
pub struct ExReport(Report);

/// What can go wrong while sources are collected and trees are built.
///
/// `CacheMiss` and `DeserializeError` never end a build: whatever goes wrong
/// while a cache entry is looked up sends the builder back to the parsing
/// engine, and the error is handed out only as the reason of the miss.
#[derive(Debug)]
pub enum Error {
    /// A configured directory does not exist or is not a directory.
    InvalidPath(String),
    /// The file system refused a read or a write.
    IoError(String),
    /// A signed tree could not be encoded so that it is read back.
    SerializeError(String),
    /// The bytes of a cache entry are not a signed tree.
    DeserializeError(String),
    /// A cache entry was written for other contents than the source has now.
    CacheMiss,
    /// The parsing engine rejected a source.
    ParseError(Box<Report>),
}

/// An error as its texts. The two codec errors carry a rendering of the
/// codec's own message, which stands for nothing but itself.
pub enum ErrorView {
    InvalidPath(Seq<char>),
    IoError(Seq<char>),
    SerializeError,
    DeserializeError,
    CacheMiss,
    ParseError(Report),
}

impl View for Error {
    type V = ErrorView;

    open spec fn view(&self) -> ErrorView {
        match self {
            Error::InvalidPath(message) => ErrorView::InvalidPath(message@),
            Error::IoError(message) => ErrorView::IoError(message@),
            Error::SerializeError(_) => ErrorView::SerializeError,
            Error::DeserializeError(_) => ErrorView::DeserializeError,
            Error::CacheMiss => ErrorView::CacheMiss,
            Error::ParseError(report) => ErrorView::ParseError(**report),
        }
    }
}

} // verus!
