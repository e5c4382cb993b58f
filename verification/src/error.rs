//! What can go wrong while resolving, checking and selecting a release.

use vstd::prelude::*;

verus! {

/// The failures that the library reports. Each carries, as text, what a caller
/// needs to tell the user what happened.
#[derive(Clone, Debug, PartialEq, Eq)]
pub enum SvmError {
    /// The requested version is not in the catalog, or has no published checksum.
    UnknownVersion,
    /// The version (first) lies outside what the platform (second) is served with.
    UnsupportedVersion(String, String),
    /// The downloaded bytes do not hash to the published checksum. Both digests
    /// are in lowercase hexadecimal.
    ChecksumMismatch { version: String, expected: String, actual: String },
    /// The download answered with a status (second) outside 200..=299 for the URL (first).
    UnsuccessfulResponse(String, u16),
    /// An entry of the release manifest cannot be read; the text is the offending one.
    CatalogParse(String),
    /// The text is not a semantic version.
    InvalidVersion(String),
    /// The text is not an absolute URL.
    InvalidUrl(String),
}

/// An error with its texts as sequences of characters.
pub enum SvmErrorView {
    UnknownVersion,
    UnsupportedVersion(Seq<char>, Seq<char>),
    ChecksumMismatch { version: Seq<char>, expected: Seq<char>, actual: Seq<char> },
    UnsuccessfulResponse(Seq<char>, u16),
    CatalogParse(Seq<char>),
    InvalidVersion(Seq<char>),
    InvalidUrl(Seq<char>),
}

impl View for SvmError {
    type V = SvmErrorView;

    open spec fn view(&self) -> SvmErrorView {
        match self {
            SvmError::UnknownVersion => SvmErrorView::UnknownVersion,
            SvmError::UnsupportedVersion(v, p) => SvmErrorView::UnsupportedVersion(v@, p@),
            SvmError::ChecksumMismatch { version, expected, actual } => SvmErrorView::ChecksumMismatch {
                version: version@,
                expected: expected@,
                actual: actual@,
            },
            SvmError::UnsuccessfulResponse(url, status) => SvmErrorView::UnsuccessfulResponse(
                url@,
                *status,
            ),
            SvmError::CatalogParse(text) => SvmErrorView::CatalogParse(text@),
            SvmError::InvalidVersion(text) => SvmErrorView::InvalidVersion(text@),
            SvmError::InvalidUrl(text) => SvmErrorView::InvalidUrl(text@),
        }
    }
}

} // verus!
