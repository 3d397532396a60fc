//! Error taxonomy of the scene builder.
//!
//! A malformed or unsupported scene makes the whole build fail; nothing
//! partial is ever returned.  Conditions that are merely unrecognized
//! (an unknown attribute semantic, a missing optional texture) are
//! substituted with documented defaults and never raised as errors.

use vstd::prelude::*;

verus! {

/// A buffer reference that the resource cache cannot resolve.
#[derive(Debug, PartialEq, Eq, Structural)]
pub enum ResourceError {
    /// The view names a source buffer index that does not exist.
    BufferOutOfRange,
    /// The view's byte range does not lie inside its source buffer.
    RangeOutOfBounds,
}

/// A scene description that cannot be turned into a renderable plan.
#[derive(Debug, PartialEq, Eq, Structural)]
pub enum LoadError {
    /// A node, mesh, accessor, view, material or image index dangles,
    /// or the node arena is not a well-formed forest.
    MalformedScene,
    /// An attribute accessor declares a combination of data type,
    /// dimensions and normalization that has no vertex format.
    UnsupportedVertexFormat,
    /// An index accessor declares a width other than 16-bit or 32-bit
    /// unsigned.
    UnsupportedIndexFormat,
    /// An index accessor carries no buffer view.
    IndexWithoutView,
    /// A primitive resolved no attribute stream at all.
    NoRenderableAttributes,
    /// A buffer resolution failed inside the resource cache.
    Resource(ResourceError),
}

impl ResourceError {
    /// A short human-readable description of the error.
    pub fn message(&self) -> (r: &'static str)
        ensures
            r@.len() > 0,
    {
        proof {
            reveal_strlit("source buffer index is out of range");
            reveal_strlit("view byte range exceeds its source buffer");
        }
        match self {
            ResourceError::BufferOutOfRange => "source buffer index is out of range",
            ResourceError::RangeOutOfBounds => "view byte range exceeds its source buffer",
        }
    }
}

impl LoadError {
    /// A short human-readable description of the error.
    pub fn message(&self) -> (r: &'static str)
        ensures
            r@.len() > 0,
    {
        proof {
            reveal_strlit("scene description is malformed");
            reveal_strlit("accessor has no matching vertex format");
            reveal_strlit("index accessor must be 16-bit or 32-bit unsigned");
            reveal_strlit("index accessor carries no buffer view");
            reveal_strlit("primitive has no renderable attributes");
        }
        match self {
            LoadError::MalformedScene => "scene description is malformed",
            LoadError::UnsupportedVertexFormat => "accessor has no matching vertex format",
            LoadError::UnsupportedIndexFormat => "index accessor must be 16-bit or 32-bit unsigned",
            LoadError::IndexWithoutView => "index accessor carries no buffer view",
            LoadError::NoRenderableAttributes => "primitive has no renderable attributes",
            LoadError::Resource(e) => e.message(),
        }
    }
}

} // verus!
