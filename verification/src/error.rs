use vstd::prelude::*;

verus! {

/// Everything that can go wrong while decoding a database file. Every decode
/// step fails fast: the first error is propagated unchanged to the caller.
#[derive(Clone, Copy, Debug, PartialEq, Eq, Structural)]
pub enum Error {
    /// The byte image is too short for a read the format requires.
    IoError,
    /// The 16-byte magic string at the start of the file is wrong.
    NotADatabaseFile,
    /// The page-size field does not hold a power of two.
    CorruptHeader,
    /// A page number is zero or larger than the page count.
    InvalidPageNumber,
    /// A page's first header byte is none of the four B-tree page types.
    InvalidPageType,
    /// A record header holds serial type 10 or 11, or a negative code.
    UnsupportedSerialType,
    /// A cell's payload does not fit in the page-local capacity; overflow
    /// pages are not supported.
    PayloadOverflowUnsupported,
    /// An index page was found while walking a table B-tree.
    UnexpectedPageKind,
    /// The page structure is deeper than any well-formed tree can be.
    MalformedTree,
    /// A schema row is missing columns or types a column wrongly.
    SchemaDecodeError,
    /// A variable-length integer or a fixed-width field ran past the end of
    /// its buffer.
    TruncatedInput,
}

} // verus!
