//! Error taxonomy and the on-disk format revision tag.

use vstd::prelude::*;

verus! {

/// The on-disk format revisions this crate can read.
#[derive(Clone, Copy, Debug, PartialEq, Eq, Structural)]
pub enum Version {
    V1,
}

/// Every failure a dump reader can surface.
///
/// `IoFailure` is reserved for callers that gather the on-disk bytes:
/// the verified reader itself works on already-read text and never
/// produces it.
#[derive(Clone, Debug)]
pub enum Error {
    /// An underlying read or open failed.
    IoFailure,
    /// A per-index directory name is not valid text.
    BadIndexName,
    /// A document, settings or task record failed to parse; `index` names
    /// the offending index and `line` the 0-based record number.
    ParseError { index: String, line: u64 },
    /// The top-level metadata document is missing or malformed.
    CorruptMetadata,
    /// The metadata names a format revision this crate does not know.
    UnsupportedVersion,
}

} // verus!
