//! The built scene: flat draw records, binding groups and buffers.
//!
//! A built scene is the GPU-addressable form of a scene description:
//! a list of draw records (one per primitive of every visited node),
//! a binding-group table indexed by integer id, and the deduplicated
//! buffer allocations of the resource cache.  Pipeline sets compiled
//! per named pass are stored beside them.

use vstd::prelude::*;
use crate::cache::ResourceCache;
use crate::desc::MatrixData;
use crate::formats::IndexFormat;
use crate::material::MaterialGroup;
use crate::registry::PipelineData;

verus! {

/// One attribute stream's source: a buffer view handle and the byte
/// offset at which the stream starts inside the view's allocation.
#[derive(Debug, Clone, Copy, PartialEq, Eq, Structural)]
pub struct ViewData {
    pub view_index: usize,
    pub offset: u64,
}

/// The index stream of an indexed draw record.
#[derive(Debug, Clone, Copy, PartialEq, Eq, Structural)]
pub struct IndexData {
    /// Buffer handle of the index allocation.
    pub buffer_id: usize,
    /// Width of one index.
    pub format: IndexFormat,
    /// Byte offset of the stream inside the allocation.
    pub offset: u64,
}

/// How a vertex buffer steps through its elements.
#[derive(Debug, Clone, Copy, PartialEq, Eq, Structural)]
pub enum VertexStepMode {
    Vertex,
    Instance,
}

/// One attribute of a vertex layout fragment.
#[derive(Debug, Clone, Copy, PartialEq, Eq, Structural)]
pub struct VertexAttributeDesc {
    pub format: crate::formats::VertexFormat,
    pub offset: u64,
    pub shader_location: u32,
}

/// One single-stream vertex layout fragment: stride, step mode and
/// the attributes read from the stream.
#[derive(Debug)]
pub struct VertexBufferLayoutBuilder {
    pub array_stride: u64,
    pub step_mode: VertexStepMode,
    pub attributes: Vec<VertexAttributeDesc>,
}

/// Mathematical image of one vertex layout fragment.
pub ghost struct LayoutModel {
    pub array_stride: u64,
    pub step_mode: VertexStepMode,
    pub attributes: Seq<VertexAttributeDesc>,
}

impl View for VertexBufferLayoutBuilder {
    type V = LayoutModel;

    open spec fn view(&self) -> LayoutModel {
        LayoutModel {
            array_stride: self.array_stride,
            step_mode: self.step_mode,
            attributes: self.attributes@,
        }
    }
}

impl VertexBufferLayoutBuilder {
    /// A fragment from its parts.
    pub fn new(
        array_stride: u64,
        step_mode: VertexStepMode,
        attributes: Vec<VertexAttributeDesc>,
    ) -> (r: VertexBufferLayoutBuilder)
        ensures
            r.array_stride == array_stride,
            r.step_mode == step_mode,
            r.attributes == attributes,
    {
        VertexBufferLayoutBuilder { array_stride, step_mode, attributes }
    }

    /// The finished layout: an identical copy of this fragment.
    pub fn build(&self) -> (r: VertexBufferLayoutBuilder)
        ensures
            r@ == self@,
    {
        let mut attributes: Vec<VertexAttributeDesc> = Vec::new();
        let mut i: usize = 0;
        while i < self.attributes.len()
            invariant
                i <= self.attributes.len(),
                attributes@ == self.attributes@.subrange(0, i as int),
            decreases self.attributes.len() - i,
        {
            attributes.push(self.attributes[i]);
            proof {
                assert(attributes@ =~= self.attributes@.subrange(0, i + 1));
            }
            i = i + 1;
        }
        proof {
            assert(attributes@ =~= self.attributes@);
        }
        VertexBufferLayoutBuilder { array_stride: self.array_stride, step_mode: self.step_mode, attributes }
    }
}

/// The view of a sequence of layout fragments.
pub open spec fn spec_layouts_view(layouts: Seq<VertexBufferLayoutBuilder>) -> Seq<LayoutModel> {
    layouts.map(|_i: int, l: VertexBufferLayoutBuilder| l@)
}

/// The view of a transform factor list.
pub open spec fn spec_factors_view(factors: Seq<MatrixData>) -> Seq<Seq<u32>> {
    factors.map(|_i: int, m: MatrixData| m@)
}

/// One entry of the binding-group table.
#[derive(Debug)]
pub enum BindGroupPlan {
    /// A node's transform group: the ordered factor list whose
    /// product is the node's total transform (root factor first).
    Transform { factors: Vec<MatrixData> },
    /// A primitive's material group.
    Material { group: MaterialGroup },
}

impl BindGroupPlan {
    /// Whether this entry is a transform group.
    pub open spec fn is_transform(&self) -> bool {
        self is Transform
    }

    /// Whether this entry is a material group.
    pub open spec fn is_material(&self) -> bool {
        self is Material
    }

    /// The factor list of a transform group, as raw word sequences.
    pub open spec fn spec_factors(&self) -> Seq<Seq<u32>>
        recommends
            self.is_transform(),
    {
        match self {
            BindGroupPlan::Transform { factors } => spec_factors_view(factors@),
            BindGroupPlan::Material { .. } => arbitrary(),
        }
    }

    /// The material of a material group.
    pub open spec fn spec_material(&self) -> MaterialGroup
        recommends
            self.is_material(),
    {
        match self {
            BindGroupPlan::Transform { .. } => arbitrary(),
            BindGroupPlan::Material { group } => *group,
        }
    }
}

/// The flattened, GPU-ready description of one renderable primitive.
#[derive(Debug)]
pub struct PrimitiveRenderData {
    /// Vertex layout fragments, one per resolved attribute stream.
    pub layouts: Vec<VertexBufferLayoutBuilder>,
    /// Source of each attribute stream, aligned with `layouts`.
    pub used_views: Vec<ViewData>,
    /// Number of indices (when indexed) or vertices to draw.
    pub draw_count: u32,
    /// The index stream, if the primitive is indexed.
    pub index_data: Option<IndexData>,
    /// Binding-group table id of the owning node's transform group.
    pub transform_bind_group_id: usize,
    /// Binding-group table id of the primitive's material group.
    pub material_bind_group_id: usize,
}

impl PrimitiveRenderData {
    /// The structural invariant of a draw record: one layout fragment
    /// per bound attribute stream, and both binding-group ids in
    /// range and of the right kind.
    pub open spec fn wf(&self, bind_groups: Seq<BindGroupPlan>) -> bool {
        &&& self.layouts@.len() == self.used_views@.len()
        &&& self.transform_bind_group_id < bind_groups.len()
        &&& bind_groups[self.transform_bind_group_id as int].is_transform()
        &&& self.material_bind_group_id < bind_groups.len()
        &&& bind_groups[self.material_bind_group_id as int].is_material()
    }
}

/// A built scene with its compiled pipeline sets.
pub struct Scene {
    /// Draw records, one per primitive, in traversal order.
    pub render_datas: Vec<PrimitiveRenderData>,
    /// The binding-group table; record ids index into it.
    pub bind_groups: Vec<BindGroupPlan>,
    /// The deduplicated buffer allocations, one slot per buffer view.
    pub buffers: ResourceCache,
    /// Pipeline sets, keyed by pass name.
    pub pipeline_lists: Vec<(String, PipelineData)>,
    /// Next fresh pipeline id; every compiled pipeline gets a unique
    /// id below this bound.
    pub next_pipeline_id: u64,
    /// Which node each transform group belongs to: a map from node
    /// index to the id of its transform group.
    pub node_transform: Ghost<Map<int, int>>,
    /// Which (node, primitive) each draw record came from, aligned
    /// with `render_datas`.
    pub record_source: Ghost<Seq<(int, int)>>,
}

impl Scene {
    /// The names under which pipeline sets are stored.
    pub open spec fn spec_pass_names(&self) -> Seq<Seq<char>> {
        self.pipeline_lists@.map(|_i: int, e: (String, PipelineData)| e.0@)
    }

    /// The index of the pipeline set stored under `name`, if any.
    pub open spec fn spec_find_pass(&self, name: Seq<char>) -> Option<int> {
        spec_find_pass_in(self.pipeline_lists@, name)
    }

    /// Structural invariant of a built scene: pass names are distinct,
    /// every stored pipeline set has one pipeline per draw record,
    /// compiled pipeline ids are unique across all sets and below the
    /// id bound, and every draw record is well formed against the
    /// binding table.
    pub open spec fn wf(&self) -> bool {
        &&& forall|i: int, j: int|
            0 <= i < j < self.pipeline_lists@.len() ==> self.spec_pass_names()[i]
                != self.spec_pass_names()[j]
        &&& forall|i: int|
            0 <= i < self.pipeline_lists@.len()
                ==> (#[trigger] self.pipeline_lists@[i]).1.pipeline_list@.len()
                == self.render_datas@.len()
        &&& forall|i: int, k: int|
            #![trigger self.pipeline_lists@[i].1.pipeline_list@[k]]
            0 <= i < self.pipeline_lists@.len() && 0 <= k
                < self.pipeline_lists@[i].1.pipeline_list@.len()
                ==> self.pipeline_lists@[i].1.pipeline_list@[k].id < self.next_pipeline_id
        &&& forall|i: int, k: int, i2: int, k2: int|
            #![trigger self.pipeline_lists@[i].1.pipeline_list@[k],
                self.pipeline_lists@[i2].1.pipeline_list@[k2]]
            0 <= i < self.pipeline_lists@.len() && 0 <= k
                < self.pipeline_lists@[i].1.pipeline_list@.len() && 0 <= i2
                < self.pipeline_lists@.len() && 0 <= k2
                < self.pipeline_lists@[i2].1.pipeline_list@.len() && (i != i2 || k != k2)
                ==> self.pipeline_lists@[i].1.pipeline_list@[k].id
                != self.pipeline_lists@[i2].1.pipeline_list@[k2].id
        &&& forall|k: int|
            0 <= k < self.render_datas@.len() ==> (#[trigger] self.render_datas@[k]).wf(
                self.bind_groups@,
            )
    }
}

/// The index of the entry stored under `name` in a keyed list, if
/// any: the first entry whose key is `name`.
pub open spec fn spec_find_pass_in(
    lists: Seq<(String, PipelineData)>,
    name: Seq<char>,
) -> Option<int>
    decreases lists.len(),
{
    if lists.len() == 0 {
        None
    } else if lists[0].0@ == name {
        Some(0)
    } else {
        match spec_find_pass_in(lists.drop_first(), name) {
            Some(i) => Some(i + 1),
            None => None,
        }
    }
}

} // verus!
