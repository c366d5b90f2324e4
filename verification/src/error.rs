use vstd::prelude::*;

verus! {

/// Failures raised while decoding the document graph or assembling a layer's
/// tiles. Container-level I/O failures are reported by the caller that owns
/// the container, not by this crate.
#[derive(Debug, PartialEq, Eq)]
pub enum NsArchiveError {
    /// A required key was absent from a record; carries that key.
    MissingKey(String),
    /// A value was present but had the wrong shape or class tag.
    TypeMismatch,
    /// A tile entry's name suffix was not `col~row`, or named a tile outside
    /// the document's grid.
    MalformedTileName,
    /// A tile's compressed bytes were corrupt or decompressed to the wrong
    /// length.
    DecompressionFailed,
}

/// Mathematical image of an error value: the key string is abstracted to its
/// character sequence so that contracts can speak of it directly.
pub enum NsErrorView {
    MissingKey(Seq<char>),
    TypeMismatch,
    MalformedTileName,
    DecompressionFailed,
}

impl View for NsArchiveError {
    type V = NsErrorView;

    open spec fn view(&self) -> NsErrorView {
        match self {
            NsArchiveError::MissingKey(k) => NsErrorView::MissingKey(k@),
            NsArchiveError::TypeMismatch => NsErrorView::TypeMismatch,
            NsArchiveError::MalformedTileName => NsErrorView::MalformedTileName,
            NsArchiveError::DecompressionFailed => NsErrorView::DecompressionFailed,
        }
    }
}

} // verus!
