use vstd::prelude::*;

verus! {

/// Failures of the archive reader.
#[derive(Debug, Clone, Copy, PartialEq, Eq, Structural)]
pub enum Error {
    /// The input does not start with the container's root tag.
    FormatError,
    /// A read ran past the end of the bytes, or an offset could not be used.
    Truncated,
    /// A string's bytes are not valid UTF-8.
    Encoding,
    /// The requested chunk is not in the directory.
    MissingChunk,
    /// A prerequisite chunk, page or group has not been decoded or resolved yet.
    NotLoaded,
    /// There is no page or blob at the referenced index.
    IndexOutOfRange,
    /// The image codec rejected a page's bytes.
    CodecFailure,
}

} // verus!
