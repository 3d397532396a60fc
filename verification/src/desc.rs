//! The scene description the builder consumes.
//!
//! This is the loaded form of a hierarchical mesh document: a node
//! arena with local transforms, meshes of primitives, accessors over
//! buffer views, and materials.  All graph edges are indices into the
//! arenas; the builder validates every index before it walks anything.
//!
//! Matrix entries are carried as raw 32-bit words.  The library never
//! interprets them: it only routes them and records, per node, the
//! ordered list of factors whose product is the node's total
//! transform.  The caller's GPU layer carries out the multiplication
//! when it uploads the transform.

use vstd::prelude::*;
use crate::formats::{DataType, Dimensions};
use crate::material::ColorFactor;
use crate::shader::Semantic;

verus! {

/// A 4x4 column-major matrix, carried as 16 raw 32-bit words.
#[derive(Debug)]
pub struct MatrixData {
    pub words: Vec<u32>,
}

impl View for MatrixData {
    type V = Seq<u32>;

    open spec fn view(&self) -> Seq<u32> {
        self.words@
    }
}

impl MatrixData {
    /// A matrix payload holds exactly 16 words.
    pub open spec fn wf(&self) -> bool {
        self.words@.len() == 16
    }

    /// An identical copy of this matrix payload.
    pub fn duplicate(&self) -> (r: MatrixData)
        ensures
            r@ == self@,
    {
        let mut words: Vec<u32> = Vec::new();
        let mut i: usize = 0;
        while i < self.words.len()
            invariant
                i <= self.words.len(),
                words@ == self.words@.subrange(0, i as int),
            decreases self.words.len() - i,
        {
            words.push(self.words[i]);
            i = i + 1;
        }
        proof {
            assert(words@ =~= self.words@);
        }
        MatrixData { words }
    }
}

/// A contiguous byte range of a source buffer, optionally with a
/// declared stride.  A view's identity is its index in the arena.
#[derive(Debug)]
pub struct BufferViewDesc {
    /// Index of the source buffer the range lies in.
    pub buffer: usize,
    /// Byte offset of the range inside the source buffer.
    pub offset: usize,
    /// Byte length of the range.
    pub length: usize,
    /// Declared byte stride between elements, if any.
    pub stride: Option<usize>,
}

/// One typed stream of elements inside a buffer view.
#[derive(Debug)]
pub struct AccessorDesc {
    /// The buffer view the stream reads, if it has one; an accessor
    /// without a view resolves no data.
    pub view: Option<usize>,
    /// Byte offset of the stream inside its view.
    pub offset: u64,
    /// Number of elements in the stream.
    pub count: u32,
    /// Scalar component type of one element.
    pub data_type: DataType,
    /// Shape of one element.
    pub dimensions: Dimensions,
    /// Whether integer components are normalized to unit range.
    pub normalized: bool,
}

/// One renderable primitive: named attribute streams, an optional
/// index stream and an optional material.
#[derive(Debug)]
pub struct PrimitiveDesc {
    /// Attribute streams in declaration order: a semantic and the
    /// accessor index that carries the stream.
    pub attributes: Vec<(Semantic, usize)>,
    /// Accessor index of the index stream, if the primitive is indexed.
    pub indices: Option<usize>,
    /// Material index, if the primitive names one.
    pub material: Option<usize>,
}

/// A mesh: a list of primitives.
#[derive(Debug)]
pub struct MeshDesc {
    pub primitives: Vec<PrimitiveDesc>,
}

/// One node of the scene forest.
#[derive(Debug)]
pub struct NodeDesc {
    /// Local transform of the node.
    pub local_transform: MatrixData,
    /// Indices of the node's children.
    pub children: Vec<usize>,
    /// Mesh index, if the node carries a mesh.
    pub mesh: Option<usize>,
}

/// Material factors and texture references, each optional; the
/// builder substitutes documented defaults for missing entries.
/// Factors are raw 32-bit words, routed without interpretation.
#[derive(Debug, Clone, Copy)]
pub struct MaterialDesc {
    /// Base color factor, if specified.
    pub base_color_factor: Option<ColorFactor>,
    /// Metallic factor word, if specified.
    pub metallic_factor: Option<u32>,
    /// Roughness factor word, if specified.
    pub roughness_factor: Option<u32>,
    /// Alpha cut-off word, if specified.
    pub alpha_cutoff: Option<u32>,
    /// Image index of the base color texture, if referenced.
    pub base_color_texture: Option<usize>,
    /// Image index of the metallic-roughness texture, if referenced.
    pub metallic_roughness_texture: Option<usize>,
    /// Image index of the normal texture, if referenced.
    pub normal_texture: Option<usize>,
}

/// A whole scene description: arenas plus the root list of the forest.
#[derive(Debug)]
pub struct SceneDesc {
    /// Node arena.
    pub nodes: Vec<NodeDesc>,
    /// Indices of the root nodes, walked in order.
    pub roots: Vec<usize>,
    /// Mesh arena.
    pub meshes: Vec<MeshDesc>,
    /// Accessor arena.
    pub accessors: Vec<AccessorDesc>,
    /// Buffer view arena.
    pub views: Vec<BufferViewDesc>,
    /// Material arena.
    pub materials: Vec<MaterialDesc>,
    /// Number of decoded images available to material texture
    /// references.
    pub image_count: usize,
}

} // verus!
