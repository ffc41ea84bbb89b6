//! The error taxonomy that file and source lookups surface to the compiler.

use vstd::prelude::*;

use crate::bytes::copy_bytes;

verus! {

/// The outcome of a failed file, source or package lookup.
///
/// Every failure of a single query is reported through this type; no query
/// failure aborts a whole compilation by itself.
#[derive(Debug, Hash)]
pub enum FileError {
    /// No file exists at the resolved path. Carries the path bytes.
    NotFound(Vec<u8>),
    /// The path escapes the root, or the file may not be accessed.
    AccessDenied,
    /// A directory stood where a file was expected.
    IsDirectory,
    /// The file is not a source file, but should have been.
    NotSource,
    /// The raw bytes are not valid UTF-8, but text was requested.
    InvalidUtf8,
    /// The package holding the file could not be fetched; carries the
    /// collaborator's message verbatim.
    Package(Vec<u8>),
    /// Any other failure, with an optional message.
    Other(Option<Vec<u8>>),
}

/// Injective key of an error: a variant tag paired with the payload bytes.
/// Two errors are interchangeable for caching exactly when their keys agree.
pub open spec fn err_key(e: FileError) -> (int, Seq<u8>) {
    match e {
        FileError::NotFound(p) => (0int, p@),
        FileError::AccessDenied => (1int, Seq::empty()),
        FileError::IsDirectory => (2int, Seq::empty()),
        FileError::NotSource => (3int, Seq::empty()),
        FileError::InvalidUtf8 => (4int, Seq::empty()),
        FileError::Package(m) => (5int, m@),
        FileError::Other(m) => match m {
            Option::None => (6int, Seq::empty()),
            Option::Some(b) => (7int, b@),
        },
    }
}

impl FileError {
    /// An independent copy of the error, equal under `err_key`.
    pub fn dup(&self) -> (r: FileError)
        ensures
            err_key(r) == err_key(*self),
    {
        match self {
            FileError::NotFound(p) => FileError::NotFound(copy_bytes(p)),
            FileError::AccessDenied => FileError::AccessDenied,
            FileError::IsDirectory => FileError::IsDirectory,
            FileError::NotSource => FileError::NotSource,
            FileError::InvalidUtf8 => FileError::InvalidUtf8,
            FileError::Package(m) => FileError::Package(copy_bytes(m)),
            FileError::Other(m) => match m {
                Option::None => FileError::Other(Option::None),
                Option::Some(b) => FileError::Other(Option::Some(copy_bytes(b))),
            },
        }
    }
}

} // verus!
