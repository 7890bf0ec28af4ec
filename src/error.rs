//! The failures that loading an entity can end in.

use vstd::prelude::*;

verus! {

/// Why a file could not be turned into an entity.
#[derive(Debug, Clone, Copy, PartialEq, Eq, Structural)]
pub enum FileError {
    /// The file is missing or could not be read.
    ReadError,
    /// The file holds no bytes.
    EmptyFileError,
    /// The bytes are not text, or the text lacks its required structure.
    FormatError,
}

/// Why a trail file could not be turned into a trail.
#[derive(Debug, Clone, Copy, PartialEq, Eq, Structural)]
pub enum TrailError {
    /// No line consisting of `---` closes the description.
    DescriptionError,
    /// Reading the file failed, or it is empty.
    FileError(FileError),
    /// A hop block lacks its link or its description.
    BodyFormatError,
}

} // verus!
