//! The failures that the I/O layer reports.

use vstd::prelude::*;

verus! {

/// Everything that can go wrong in this crate, as a value.
///
/// Unavailability of a file is *not* an error at the provider level: see
/// `OpenResult`. It becomes `NotFound` only when a caller insists that the
/// file must exist.
#[derive(Debug, PartialEq, Eq)]
pub enum Error {
    /// Hex text of the wrong length: the length that the destination calls
    /// for, then the length that was given.
    BadLength(usize, usize),
    /// Hex text that holds something other than hex digits.
    BadHexDigit,
    /// The byte source cannot tell its size.
    NotSizeable,
    /// The byte source cannot seek.
    NotSeekable,
    /// `getc` found the stream at its end.
    EndOfStream,
    /// A file that had to exist was offered by no provider.
    NotFound,
    /// `ungetc` was called while a pushed-back byte was still pending.
    DoubleUngetc,
    /// A bundle has no digest file.
    ManifestMissing,
    /// A bundle's digest file does not hold a digest.
    ManifestCorrupt,
    /// The provider has no way of saving format files.
    CannotSaveFormat,
    /// A failure of the underlying byte source or sink, in its own words.
    Io(String),
}

} // verus!
