use vstd::prelude::*;

verus! {

/// Names the invariant that a malformed document violated, so that
/// root-causing a bad document stays feasible.
#[derive(Clone, Copy, Debug, PartialEq, Eq, Structural)]
pub enum Reason {
    /// No fragment on the metadata channel for the requested node.
    MissingMetadata,
    /// The metadata-channel fragment is not an object fragment.
    MetadataNotAnObject,
    /// No fragment on the object-data channel for the requested node.
    MissingObjectData,
    /// The object-data-channel fragment is not an object fragment.
    DataNotAnObject,
    /// More object references declared by the property set than sibling
    /// references available on the fragment.
    ObjectRefCountMismatch,
    /// Declared context plus object-space references do not match the
    /// number of referenced cells exactly.
    ContextSpaceRefCountMismatch,
    /// The file-data-channel fragment is not a blob reference.
    FileDataNotBlob,
    /// A referenced blob is absent from the blob store.
    BlobNotFound,
    /// The page-series root object is absent from the root object space.
    PageSeriesMissing,
    /// A declared child object space is absent from the store.
    PageSpaceMissing,
}

/// The error family of the decoder core. Both variants are terminal for the
/// node or document being decoded; errors propagate upward unchanged.
#[derive(Clone, Copy, Debug, PartialEq, Eq, Structural)]
pub enum ParseError {
    /// A primitive codec ran out of input bytes.
    TruncatedInput,
    /// A structural invariant of the format was violated.
    MalformedData(Reason),
}

impl Reason {
    /// A human-readable account of the violated invariant.
    pub fn describe(&self) -> &'static str {
        match self {
            Reason::MissingMetadata => "object metadata is missing",
            Reason::MetadataNotAnObject => "object metadata is not an object",
            Reason::MissingObjectData => "object data is missing",
            Reason::DataNotAnObject => "object data is not an object",
            Reason::ObjectRefCountMismatch => "object ref array sizes do not match",
            Reason::ContextSpaceRefCountMismatch => {
                "object space/context array sizes do not match"
            },
            Reason::FileDataNotBlob => "file-data entry is not a blob reference",
            Reason::BlobNotFound => "blob not found",
            Reason::PageSeriesMissing => "page series object is missing",
            Reason::PageSpaceMissing => "page space is missing",
        }
    }
}

} // verus!
