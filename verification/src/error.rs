//! Errors surfaced by the document pipeline.
//!
//! Only barcode failures are recovered (they degrade to an empty barcode
//! string); every other error aborts the invocation and is reported to the
//! caller with enough detail to present a useful message.

use vstd::prelude::*;

verus! {

/// An application-level failure of one invoice invocation.
#[derive(Debug, PartialEq, Eq)]
pub enum Error {
    /// A multipart attachment arrived without a filename.
    MissingFilename,
    /// The named file does not match the attachment allowlist.
    UnsupportedFileFormat(String),
    /// The template engine reported diagnostics; the payload is every
    /// diagnostic message joined with newlines.
    TypstError(String),
    /// The renderer could not serialize a compiled document.
    RenderFailed,
    /// A PDF attachment could not be parsed; identifies the offender.
    MergeError { index: usize, filename: String },
}

/// A failure to resolve a file inside one compilation's virtual file system.
#[derive(Debug, PartialEq, Eq)]
pub enum VfsError {
    /// The named virtual path was never inserted: a template/asset
    /// mismatch, reported with the path that was asked for.
    NotFound(String),
    /// The file's bytes are not valid UTF-8, so it has no source text.
    InvalidEncoding,
}

} // verus!
