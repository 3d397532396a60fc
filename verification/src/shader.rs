//! Shader references and attribute semantics.

use vstd::prelude::*;

verus! {

/// Attribute semantic declared by a primitive, before mapping.
///
/// The numbered semantics carry their declared set index; only set 0
/// of each is renderable.
#[derive(Debug, Clone, Copy, PartialEq, Eq, Structural)]
pub enum Semantic {
    Positions,
    Normals,
    Tangents,
    Colors(u32),
    TexCoords(u32),
    Joints(u32),
    Weights(u32),
}

/// Attribute slot of the vertex layout.  `Unknown` tags semantics this
/// renderer does not recognize; they are excluded from the layout
/// without aborting the load.
#[derive(Debug, Clone, Copy, PartialEq, Eq, Hash, Structural)]
pub enum Attribute {
    Positions,
    TexCoords,
    Normals,
    Tangents,
    Joints,
    Weights,
    Colors,
    Unknown,
}

/// The attribute slot for a declared semantic.
pub open spec fn spec_attribute_of(semantic: Semantic) -> Attribute {
    match semantic {
        Semantic::Positions => Attribute::Positions,
        Semantic::Normals => Attribute::Normals,
        Semantic::Tangents => Attribute::Tangents,
        Semantic::Colors(set) => if set == 0 {
            Attribute::Colors
        } else {
            Attribute::Unknown
        },
        Semantic::TexCoords(set) => if set == 0 {
            Attribute::TexCoords
        } else {
            Attribute::Unknown
        },
        Semantic::Joints(set) => if set == 0 {
            Attribute::Joints
        } else {
            Attribute::Unknown
        },
        Semantic::Weights(set) => if set == 0 {
            Attribute::Weights
        } else {
            Attribute::Unknown
        },
    }
}

impl Attribute {
    /// Maps a declared semantic to its attribute slot; anything but
    /// set 0 of a numbered semantic is `Unknown`.
    pub fn from_semantic(semantic: &Semantic) -> (r: Attribute)
        ensures
            r == spec_attribute_of(*semantic),
    {
        match semantic {
            Semantic::Positions => Attribute::Positions,
            Semantic::Normals => Attribute::Normals,
            Semantic::Tangents => Attribute::Tangents,
            Semantic::Colors(0u32) => Attribute::Colors,
            Semantic::TexCoords(0u32) => Attribute::TexCoords,
            Semantic::Joints(0u32) => Attribute::Joints,
            Semantic::Weights(0u32) => Attribute::Weights,
            _ => Attribute::Unknown,
        }
    }

    /// The shader input location bound to this attribute slot.
    pub open spec fn spec_shader_location(self) -> u32
        recommends
            self != Attribute::Unknown,
    {
        match self {
            Attribute::Positions => 0,
            Attribute::TexCoords => 1,
            Attribute::Normals => 2,
            Attribute::Tangents => 3,
            Attribute::Joints => 4,
            Attribute::Weights => 5,
            Attribute::Colors => 6,
            Attribute::Unknown => arbitrary(),
        }
    }

    /// The shader input location bound to this attribute slot.
    /// `Unknown` has no location: it never enters a vertex layout.
    pub fn shader_location(&self) -> (r: u32)
        requires
            *self != Attribute::Unknown,
        ensures
            r == self.spec_shader_location(),
    {
        match self {
            Attribute::Positions => 0,
            Attribute::TexCoords => 1,
            Attribute::Normals => 2,
            Attribute::Tangents => 3,
            Attribute::Joints => 4,
            Attribute::Weights => 5,
            Attribute::Colors => 6,
            Attribute::Unknown => 0,
        }
    }
}

/// A compiled shader module reference with its entry points.  The
/// module id names a shader object owned by the caller's GPU layer.
#[derive(Debug)]
pub struct Shader {
    pub vs_entry: String,
    pub fs_entry: String,
    pub module: usize,
}

} // verus!
