use vstd::prelude::*;

verus! {

/// Every way in which combining two images can fail.
///
/// Variants that come from reading, decoding or writing a file carry the
/// underlying error's message.
#[derive(Debug, Clone, PartialEq, Eq)]
pub enum ImageDataErrors {
    /// The two inputs are stored in different container formats.
    DifferentImageFormats,
    /// The format of an input could not be detected, or pixel data does not
    /// fit the capacity of the buffer that should hold it.
    BufferTooSmall,
    /// An input file could not be opened.
    UnableToReadImageFromPath(String),
    /// An input could not be brought into a usable pixel format.
    UnableToFormatImage(String),
    /// The pixel stream of an input could not be decoded.
    UnableToParseImage(String),
    /// The combined image could not be encoded or written.
    UnableToSaveImage(String),
    /// The invocation lacks the positional argument at this position
    /// (1: first image, 2: second image, 3: output path).
    MissingArgument(usize),
}

} // verus!
