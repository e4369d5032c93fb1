//! The errors of the library and their models.

use vstd::prelude::*;

use crate::text::append;

verus! {

/// Why a history archive could not be read.
#[derive(Debug, Clone, PartialEq, Eq)]
pub enum ArchiveErrorKind {
    /// The file could not be fetched.
    FetchFailed { file: String, reason: String },
    /// The file was fetched but is not a valid gzip stream.
    DecompressionFailed { file: String, reason: String },
    /// The file was decompressed but does not hold the XDR it should.
    MalformedXdr { file: String, reason: String },
}

/// The model of [`ArchiveErrorKind`].
pub enum ArchiveErrorModel {
    FetchFailed { file: Seq<char>, reason: Seq<char> },
    DecompressionFailed { file: Seq<char>, reason: Seq<char> },
    MalformedXdr { file: Seq<char>, reason: Seq<char> },
}

/// The errors of the library.
#[derive(Debug, Clone, PartialEq, Eq)]
pub enum GratError {
    /// A contract specification could not be read.
    SpecError(String),
    /// A history archive could not be read.
    ArchiveError(ArchiveErrorKind),
    /// Transaction data is incomplete or cannot be decoded.
    Internal(String),
    /// The transaction holds no Soroban operation results.
    NotSorobanTransaction,
}

/// The model of [`GratError`].
pub enum GratErrorModel {
    SpecError(Seq<char>),
    ArchiveError(ArchiveErrorModel),
    Internal(Seq<char>),
    NotSorobanTransaction,
}

/// The result type of the library.
pub type GratResult<T> = Result<T, GratError>;

impl View for ArchiveErrorKind {
    type V = ArchiveErrorModel;

    open spec fn view(&self) -> ArchiveErrorModel {
        match *self {
            ArchiveErrorKind::FetchFailed { file, reason } => ArchiveErrorModel::FetchFailed {
                file: file@,
                reason: reason@,
            },
            ArchiveErrorKind::DecompressionFailed { file, reason } =>
                ArchiveErrorModel::DecompressionFailed { file: file@, reason: reason@ },
            ArchiveErrorKind::MalformedXdr { file, reason } => ArchiveErrorModel::MalformedXdr {
                file: file@,
                reason: reason@,
            },
        }
    }
}

impl View for GratError {
    type V = GratErrorModel;

    open spec fn view(&self) -> GratErrorModel {
        match *self {
            GratError::SpecError(text) => GratErrorModel::SpecError(text@),
            GratError::ArchiveError(kind) => GratErrorModel::ArchiveError(kind@),
            GratError::Internal(text) => GratErrorModel::Internal(text@),
            GratError::NotSorobanTransaction => GratErrorModel::NotSorobanTransaction,
        }
    }
}

impl ArchiveErrorModel {
    /// The text that [`ArchiveErrorKind::message`] returns.
    pub open spec fn message(self) -> Seq<char> {
        match self {
            ArchiveErrorModel::FetchFailed { file, reason } => "failed to fetch "@ + file + ": "@
                + reason,
            ArchiveErrorModel::DecompressionFailed { file, reason } => "decompression failed for "@
                + file + ": "@ + reason,
            ArchiveErrorModel::MalformedXdr { file, reason } => "malformed XDR in "@ + file + ": "@
                + reason,
        }
    }
}

impl ArchiveErrorKind {
    /// The error as one line of text.
    pub fn message(&self) -> (text: String)
        ensures
            text@ == self@.message(),
    {
        match self {
            ArchiveErrorKind::FetchFailed { file, reason } => described(
                "failed to fetch ",
                file,
                reason,
            ),
            ArchiveErrorKind::DecompressionFailed { file, reason } => described(
                "decompression failed for ",
                file,
                reason,
            ),
            ArchiveErrorKind::MalformedXdr { file, reason } => described(
                "malformed XDR in ",
                file,
                reason,
            ),
        }
    }
}

/// `prefix`, the file's name and the reason, with a colon before the reason.
fn described(prefix: &str, file: &String, reason: &String) -> (text: String)
    ensures
        text@ == prefix@ + file@ + ": "@ + reason@,
{
    let mut text = String::new();
    append(&mut text, prefix);
    append(&mut text, file.as_str());
    append(&mut text, ": ");
    append(&mut text, reason.as_str());
    assert(text@ == prefix@ + file@ + ": "@ + reason@);
    text
}

} // verus!
