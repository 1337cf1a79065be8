//! Error type shared by the parsing and generation stages.

use vstd::prelude::*;

verus! {

/// Errors that the build stages can report. Each variant carries a
/// human-readable message or the offending path.
#[derive(Debug)]
pub enum ParaSsgError {
    /// A file or directory operation failed.
    Io(String),
    /// A path was rejected (not a directory, collides with a file, ...).
    InvalidPath(String),
    /// The input root does not exist.
    DirectoryNotFound(String),
    /// A document could not be parsed (frontmatter structure or metadata).
    ParseError(String),
    /// Site generation failed.
    GenerationError(String),
    /// Serialization of a derived artifact failed.
    Json(String),
}

impl ParaSsgError {
    /// The message carried by the error, without the variant's label.
    pub fn detail(&self) -> (r: &String)
        ensures
            r@ == self.detail_spec(),
    {
        match self {
            ParaSsgError::Io(m) => m,
            ParaSsgError::InvalidPath(m) => m,
            ParaSsgError::DirectoryNotFound(m) => m,
            ParaSsgError::ParseError(m) => m,
            ParaSsgError::GenerationError(m) => m,
            ParaSsgError::Json(m) => m,
        }
    }

    /// The message carried by the error, as a sequence of characters.
    pub open spec fn detail_spec(&self) -> Seq<char> {
        match self {
            ParaSsgError::Io(m) => m@,
            ParaSsgError::InvalidPath(m) => m@,
            ParaSsgError::DirectoryNotFound(m) => m@,
            ParaSsgError::ParseError(m) => m@,
            ParaSsgError::GenerationError(m) => m@,
            ParaSsgError::Json(m) => m@,
        }
    }
}

} // verus!
