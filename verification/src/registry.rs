//! The pipeline registry and draw-time binding.
//!
//! For a named pass, the registry compiles one pipeline per draw
//! record of the scene, in record order, composing the pass's own
//! binding layouts with the scene's transform and material layouts.
//! Re-registering a name replaces its prior set.  Drawing a pass
//! yields the exact command sequence that renders every record:
//! pipeline, vertex buffers, the two scene binding groups at the
//! pass's start slot, then an indexed or plain draw.

use vstd::prelude::*;
use vstd::pervasive::VecAdditionalExecFns;
use crate::formats::IndexFormat;
use crate::scene::{
    spec_layouts_view, BindGroupPlan, PrimitiveRenderData, Scene, VertexAttributeDesc,
    VertexBufferLayoutBuilder, ViewData, spec_find_pass_in,
};
use crate::shader::Shader;

verus! {

/// Blend state of a color target.
#[derive(Debug, Clone, Copy, PartialEq, Eq, Structural)]
pub enum BlendMode {
    /// Source replaces destination.
    Replace,
}

/// One color target of a render pipeline.
#[derive(Debug, Clone, Copy, PartialEq, Eq, Structural)]
pub struct ColorTarget {
    /// Texture format code of the target, as the caller's GPU layer
    /// numbers its formats.
    pub format: u32,
    /// Blend state, if blending is enabled.
    pub blend: Option<BlendMode>,
    /// Color write mask bits.
    pub write_mask: u32,
}

/// One entry of a pipeline's binding-layout list.
#[derive(Debug, Clone, Copy, PartialEq, Eq, Structural)]
pub enum LayoutRef {
    /// A pass-specific layout owned by the caller, by its id.
    External(usize),
    /// The scene's shared per-node transform layout.
    Transform,
    /// The scene's shared per-primitive material layout.
    Material,
}

/// One compiled render pipeline of a pass's set.
#[derive(Debug)]
pub struct PipelineDesc {
    /// Unique id of this compiled pipeline.
    pub id: u64,
    /// Vertex layout fragments of the draw record it was built for.
    pub vertex_layouts: Vec<VertexBufferLayoutBuilder>,
    /// Full binding-layout list: the pass's own layouts first, then
    /// the transform and material layouts.
    pub bind_group_layouts: Vec<LayoutRef>,
    /// Shader module and entry points.
    pub shader_module: usize,
    pub vs_entry: String,
    pub fs_entry: String,
    /// Color target formats of the pass.
    pub targets: Vec<Option<ColorTarget>>,
    /// Whether depth testing is enabled.
    pub depth: bool,
    /// Whether back faces are culled.
    pub cull_back_face: bool,
}

/// A pass's compiled pipeline set: one pipeline per draw record, in
/// record order, plus the binding slot at which the scene's groups
/// are bound at draw time.
#[derive(Debug)]
pub struct PipelineData {
    pub pipeline_list: Vec<PipelineDesc>,
    pub bind_group_start_index: u32,
}

/// One recorded draw-time command.
#[derive(Debug, Clone, Copy, PartialEq, Eq, Structural)]
pub enum DrawCommand {
    /// Bind pipeline `pass_pipeline` of the pass's set.
    SetPipeline { pass_pipeline: usize },
    /// Bind an attribute stream's buffer at a vertex slot, starting
    /// at the stream's byte offset.
    SetVertexBuffer { slot: usize, buffer_id: usize, offset: u64 },
    /// Bind a binding group of the scene's table at a slot.
    SetBindGroup { index: u32, group_id: usize },
    /// Bind the index stream's buffer.
    SetIndexBuffer { buffer_id: usize, format: IndexFormat, offset: u64 },
    /// Draw `count` indices of one instance.
    DrawIndexed { count: u32 },
    /// Draw `count` vertices of one instance.
    Draw { count: u32 },
}

/// The composed binding-layout list of a pass: the pass's own
/// layouts, then the transform layout, then the material layout.
pub open spec fn spec_composed_layouts(extra: Seq<usize>) -> Seq<LayoutRef> {
    extra.map(|_i: int, id: usize| LayoutRef::External(id)).push(LayoutRef::Transform).push(
        LayoutRef::Material,
    )
}

/// Whether `pd` is the pipeline set compiled for `records` from the
/// given pass configuration, with ids `id_base .. id_base + len`.
pub open spec fn spec_pipeline_set_for(
    pd: PipelineData,
    records: Seq<PrimitiveRenderData>,
    extra: Seq<usize>,
    shader: Shader,
    targets: Seq<Option<ColorTarget>>,
    depth: bool,
    cull_back_face: bool,
    id_base: u64,
) -> bool {
    &&& pd.bind_group_start_index == extra.len()
    &&& pd.pipeline_list@.len() == records.len()
    &&& forall|k: int|
        0 <= k < records.len() ==> {
            let p = #[trigger] pd.pipeline_list@[k];
            &&& p.id == id_base + k
            &&& spec_layouts_view(p.vertex_layouts@) == spec_layouts_view(records[k].layouts@)
            &&& p.bind_group_layouts@ == spec_composed_layouts(extra)
            &&& p.shader_module == shader.module
            &&& p.vs_entry@ == shader.vs_entry@
            &&& p.fs_entry@ == shader.fs_entry@
            &&& p.targets@ == targets
            &&& p.depth == depth
            &&& p.cull_back_face == cull_back_face
        }
}

/// The vertex-buffer commands of the first `s` attribute streams of a
/// record: stream `j` binds its buffer at slot `j`, starting at the
/// stream's byte offset.
pub open spec fn spec_vertex_commands(rec: PrimitiveRenderData, s: int) -> Seq<DrawCommand> {
    Seq::new(
        s as nat,
        |j: int|
            DrawCommand::SetVertexBuffer {
                slot: j as usize,
                buffer_id: rec.used_views@[j].view_index,
                offset: rec.used_views@[j].offset,
            },
    )
}

/// The draw commands of one record: bind the record's pipeline, bind
/// each attribute stream at its slot, bind the transform group at the
/// pass's start slot and the material group right after it, then
/// issue an indexed draw when an index stream is present and a plain
/// draw otherwise.
pub open spec fn spec_record_commands(
    k: int,
    rec: PrimitiveRenderData,
    start: u32,
) -> Seq<DrawCommand> {
    let head = seq![DrawCommand::SetPipeline { pass_pipeline: k as usize }];
    let vertex = spec_vertex_commands(rec, rec.used_views@.len() as int);
    let groups = seq![
        DrawCommand::SetBindGroup { index: start, group_id: rec.transform_bind_group_id },
        DrawCommand::SetBindGroup {
            index: (start + 1) as u32,
            group_id: rec.material_bind_group_id,
        },
    ];
    let tail = match rec.index_data {
        Some(ix) => seq![
            DrawCommand::SetIndexBuffer {
                buffer_id: ix.buffer_id,
                format: ix.format,
                offset: ix.offset,
            },
            DrawCommand::DrawIndexed { count: rec.draw_count },
        ],
        None => seq![DrawCommand::Draw { count: rec.draw_count }],
    };
    head + vertex + groups + tail
}

/// The draw commands of the first `k` records, concatenated in
/// record order.
pub open spec fn spec_draw_commands_upto(
    records: Seq<PrimitiveRenderData>,
    start: u32,
    k: int,
) -> Seq<DrawCommand>
    decreases k,
{
    if k <= 0 {
        Seq::empty()
    } else {
        spec_draw_commands_upto(records, start, k - 1) + spec_record_commands(
            k - 1,
            records[k - 1],
            start,
        )
    }
}

/// If no key before `i` matches, the match of the whole list is the
/// match of the tail from `i`, shifted by `i`.
proof fn lemma_find_pass_skip(lists: Seq<(String, PipelineData)>, name: Seq<char>, i: int)
    requires
        0 <= i <= lists.len(),
        forall|j: int| 0 <= j < i ==> (#[trigger] lists[j]).0@ != name,
    ensures
        spec_find_pass_in(lists, name) == match spec_find_pass_in(lists.skip(i), name) {
            Some(k) => Some(k + i),
            None => None::<int>,
        },
    decreases i,
{
    if i == 0 {
        assert(lists.skip(0) =~= lists);
    } else {
        assert(lists[0].0@ != name);
        lemma_find_pass_skip(lists.drop_first(), name, i - 1);
        assert(lists.drop_first().skip(i - 1) =~= lists.skip(i));
    }
}

/// Copies a target list.
fn copy_targets(targets: &Vec<Option<ColorTarget>>) -> (r: Vec<Option<ColorTarget>>)
    ensures
        r@ == targets@,
{
    let mut out: Vec<Option<ColorTarget>> = Vec::new();
    let mut i: usize = 0;
    while i < targets.len()
        invariant
            i <= targets.len(),
            out@ == targets@.subrange(0, i as int),
        decreases targets.len() - i,
    {
        out.push(targets[i]);
        proof {
            assert(out@ =~= targets@.subrange(0, i + 1));
        }
        i = i + 1;
    }
    proof {
        assert(out@ =~= targets@);
    }
    out
}

/// Copies a layout fragment list.
fn copy_layouts(layouts: &Vec<VertexBufferLayoutBuilder>) -> (r: Vec<VertexBufferLayoutBuilder>)
    ensures
        spec_layouts_view(r@) == spec_layouts_view(layouts@),
{
    let mut out: Vec<VertexBufferLayoutBuilder> = Vec::new();
    let mut i: usize = 0;
    while i < layouts.len()
        invariant
            i <= layouts.len(),
            out@.len() == i,
            spec_layouts_view(out@) == spec_layouts_view(layouts@).subrange(0, i as int),
        decreases layouts.len() - i,
    {
        out.push(layouts[i].build());
        proof {
            assert(spec_layouts_view(out@) =~= spec_layouts_view(layouts@).subrange(0, i + 1));
        }
        i = i + 1;
    }
    proof {
        assert(spec_layouts_view(out@) =~= spec_layouts_view(layouts@));
    }
    out
}

impl Scene {
    /// The index of the pipeline set stored under `name`, if any.
    fn find_pass(&self, name: &String) -> (r: Option<usize>)
        ensures
            match r {
                Some(i) => self.spec_find_pass(name@) == Some(i as int),
                None => self.spec_find_pass(name@) is None,
            },
    {
        let mut i: usize = 0;
        while i < self.pipeline_lists.len()
            invariant
                i <= self.pipeline_lists@.len(),
                forall|j: int| 0 <= j < i ==> (#[trigger] self.pipeline_lists@[j]).0@ != name@,
            decreases self.pipeline_lists@.len() - i,
        {
            if self.pipeline_lists[i].0 == *name {
                proof {
                    lemma_find_pass_skip(self.pipeline_lists@, name@, i as int);
                    assert(self.pipeline_lists@.skip(i as int)[0] == self.pipeline_lists@[i as int]);
                }
                return Some(i);
            }
            i = i + 1;
        }
        proof {
            lemma_find_pass_skip(self.pipeline_lists@, name@, i as int);
            assert(self.pipeline_lists@.skip(i as int).len() == 0);
        }
        None
    }

    /// Whether a pipeline set is registered under `name`.
    pub fn has_pass(&self, name: &str) -> (r: bool)
        ensures
            r == (self.spec_find_pass(name@) is Some),
    {
        let key: String = name.to_owned();
        self.find_pass(&key).is_some()
    }

    /// Compiles one pipeline per draw record for the pass `name` and
    /// stores the set under that name, replacing any prior set of the
    /// same name and touching no other pass.  Each pipeline composes
    /// the pass's own binding layouts with the scene's transform and
    /// material layouts, uses its record's vertex layout fragments,
    /// the shader's entry points, and the given targets, depth and
    /// culling configuration.  Every compiled pipeline gets a fresh
    /// unique id.
    pub fn generate_pipeline(
        &mut self,
        shader: &Shader,
        name: &str,
        bind_group_layouts: &Vec<usize>,
        targets: &Vec<Option<ColorTarget>>,
        depth: bool,
        cull_back_face: bool,
    )
        requires
            old(self).wf(),
            old(self).next_pipeline_id + old(self).render_datas@.len() <= u64::MAX,
            bind_group_layouts@.len() < u32::MAX,
        ensures
            final(self).wf(),
            final(self).render_datas == old(self).render_datas,
            final(self).bind_groups == old(self).bind_groups,
            final(self).buffers == old(self).buffers,
            final(self).node_transform == old(self).node_transform,
            final(self).record_source == old(self).record_source,
            final(self).next_pipeline_id == old(self).next_pipeline_id
                + old(self).render_datas@.len(),
            final(self).spec_find_pass(name@) is Some,
            ({
                let fi = final(self).spec_find_pass(name@).unwrap();
                let entry = final(self).pipeline_lists@[fi];
                &&& entry.0@ == name@
                &&& spec_pipeline_set_for(
                    entry.1,
                    old(self).render_datas@,
                    bind_group_layouts@,
                    *shader,
                    targets@,
                    depth,
                    cull_back_face,
                    old(self).next_pipeline_id,
                )
                &&& match old(self).spec_find_pass(name@) {
                    Some(oi) => fi == oi && final(self).pipeline_lists@
                        =~= old(self).pipeline_lists@.update(oi, entry),
                    None => fi == old(self).pipeline_lists@.len() && final(self).pipeline_lists@
                        =~= old(self).pipeline_lists@.push(entry),
                }
            }),
    {
        let ghost id_base = self.next_pipeline_id;
        let mut next_id: u64 = self.next_pipeline_id;
        let mut pipelines: Vec<PipelineDesc> = Vec::new();
        let record_count = self.render_datas.len();
        let mut k: usize = 0;
        let mut layout_list: Vec<LayoutRef> = Vec::new();
        let mut li: usize = 0;
        while li < bind_group_layouts.len()
            invariant
                li <= bind_group_layouts@.len(),
                layout_list@ =~= bind_group_layouts@.subrange(0, li as int).map(
                    |_i: int, id: usize| LayoutRef::External(id),
                ),
            decreases bind_group_layouts@.len() - li,
        {
            layout_list.push(LayoutRef::External(bind_group_layouts[li]));
            proof {
                assert(layout_list@ =~= bind_group_layouts@.subrange(0, li + 1).map(
                    |_i: int, id: usize| LayoutRef::External(id),
                ));
            }
            li = li + 1;
        }
        layout_list.push(LayoutRef::Transform);
        layout_list.push(LayoutRef::Material);
        proof {
            assert(bind_group_layouts@.subrange(0, bind_group_layouts@.len() as int)
                =~= bind_group_layouts@);
            assert(layout_list@ =~= spec_composed_layouts(bind_group_layouts@));
        }
        while k < record_count
            invariant
                k <= record_count,
                record_count == self.render_datas@.len(),
                next_id == id_base + k,
                id_base + record_count <= u64::MAX,
                pipelines@.len() == k,
                layout_list@ == spec_composed_layouts(bind_group_layouts@),
                forall|j: int|
                    0 <= j < k ==> {
                        let p = #[trigger] pipelines@[j];
                        &&& p.id == id_base + j
                        &&& spec_layouts_view(p.vertex_layouts@) == spec_layouts_view(
                            self.render_datas@[j].layouts@,
                        )
                        &&& p.bind_group_layouts@ == spec_composed_layouts(bind_group_layouts@)
                        &&& p.shader_module == shader.module
                        &&& p.vs_entry@ == shader.vs_entry@
                        &&& p.fs_entry@ == shader.fs_entry@
                        &&& p.targets@ == targets@
                        &&& p.depth == depth
                        &&& p.cull_back_face == cull_back_face
                    },
            decreases record_count - k,
        {
            let vertex_layouts = copy_layouts(&self.render_datas[k].layouts);
            let bind_group_layouts_copy = copy_layout_refs(&layout_list);
            let desc = PipelineDesc {
                id: next_id,
                vertex_layouts,
                bind_group_layouts: bind_group_layouts_copy,
                shader_module: shader.module,
                vs_entry: shader.vs_entry.clone(),
                fs_entry: shader.fs_entry.clone(),
                targets: copy_targets(targets),
                depth,
                cull_back_face,
            };
            pipelines.push(desc);
            next_id = next_id + 1;
            k = k + 1;
        }
        self.next_pipeline_id = next_id;
        let data = PipelineData {
            pipeline_list: pipelines,
            bind_group_start_index: bind_group_layouts.len() as u32,
        };
        let key: String = name.to_owned();
        let found = self.find_pass(&key);
        proof {
            lemma_find_pass_props(self.pipeline_lists@, name@);
        }
        match found {
            Some(i) => {
                self.pipeline_lists.set(i, (key, data));
                proof {
                    let lists0 = old(self).pipeline_lists@;
                    let lists1 = self.pipeline_lists@;
                    assert forall|j: int| 0 <= j < i implies (#[trigger] lists1[j]).0@ != name@ by {
                        assert(lists1[j] == lists0[j]);
                    }
                    lemma_find_pass_at(lists1, name@, i as int);
                    assert(lists1 =~= lists0.update(i as int, lists1[i as int]));
                    // The replaced entry keeps its name, so the name
                    // list, and with it distinctness, is unchanged.
                    assert(self.spec_pass_names() =~= old(self).spec_pass_names());
                    assert forall|a: int, b: int|
                        #![trigger lists1[a].1.pipeline_list@[b]]
                        0 <= a < lists1.len() && 0 <= b
                            < lists1[a].1.pipeline_list@.len() implies lists1[a].1.pipeline_list@[b].id
                        < self.next_pipeline_id by {
                        if a != i {
                            assert(lists1[a] == lists0[a]);
                        }
                    }
                }
            },
            None => {
                self.pipeline_lists.push((key, data));
                proof {
                    let lists0 = old(self).pipeline_lists@;
                    let lists1 = self.pipeline_lists@;
                    let n = lists0.len() as int;
                    assert forall|j: int| 0 <= j < n implies (#[trigger] lists1[j]).0@ != name@ by {
                        assert(lists1[j] == lists0[j]);
                    }
                    lemma_find_pass_at(lists1, name@, n);
                    assert(lists1 =~= lists0.push(lists1[n]));
                    assert forall|a: int, b: int|
                        0 <= a < b < lists1.len() implies self.spec_pass_names()[a]
                        != self.spec_pass_names()[b] by {
                        if b < n {
                            assert(old(self).spec_pass_names()[a] != old(
                                self,
                            ).spec_pass_names()[b]);
                        } else {
                            assert(lists1[a] == lists0[a]);
                            assert(lists1[b].0@ == name@);
                        }
                    }
                    assert forall|a: int, b: int|
                        #![trigger lists1[a].1.pipeline_list@[b]]
                        0 <= a < lists1.len() && 0 <= b
                            < lists1[a].1.pipeline_list@.len() implies lists1[a].1.pipeline_list@[b].id
                        < self.next_pipeline_id by {
                        if a != n {
                            assert(lists1[a] == lists0[a]);
                        }
                    }
                }
            },
        }
    }
}

impl Scene {
    /// The draw commands that render every record of the scene with
    /// the pipeline set registered under `name`: for each (pipeline,
    /// record) pair in stored order, bind the pipeline, bind each
    /// attribute stream's buffer at the stream's slot starting at its
    /// byte offset, bind the transform group at the pass's start slot
    /// and the material group at the next slot, then issue an indexed
    /// draw of `draw_count` elements when an index stream is present
    /// and a plain draw of `draw_count` vertices otherwise.  Exactly
    /// one instance per record.
    pub fn draw_pipelines(&self, name: &str) -> (r: Vec<DrawCommand>)
        requires
            self.wf(),
            self.spec_find_pass(name@) is Some,
            ({
                let fi = self.spec_find_pass(name@).unwrap();
                self.pipeline_lists@[fi].1.bind_group_start_index < u32::MAX
            }),
        ensures
            ({
                let fi = self.spec_find_pass(name@).unwrap();
                let start = self.pipeline_lists@[fi].1.bind_group_start_index;
                r@ == spec_draw_commands_upto(
                    self.render_datas@,
                    start,
                    self.render_datas@.len() as int,
                )
            }),
    {
        let key: String = name.to_owned();
        let found = self.find_pass(&key);
        let fi = match found {
            Some(i) => i,
            None => {
                // Unreachable: the pass is registered by precondition.
                proof {
                    assert(false);
                }
                0
            },
        };
        proof {
            lemma_find_pass_props(self.pipeline_lists@, name@);
        }
        let start = self.pipeline_lists[fi].1.bind_group_start_index;
        let n = self.render_datas.len();
        let mut cmds: Vec<DrawCommand> = Vec::new();
        let mut k: usize = 0;
        while k < n
            invariant
                k <= n,
                n == self.render_datas@.len(),
                start < u32::MAX,
                cmds@ == spec_draw_commands_upto(self.render_datas@, start, k as int),
            decreases n - k,
        {
            let ghost base = cmds@;
            let rec = &self.render_datas[k];
            cmds.push(DrawCommand::SetPipeline { pass_pipeline: k });
            let mut s: usize = 0;
            while s < rec.used_views.len()
                invariant
                    s <= rec.used_views@.len(),
                    rec == &self.render_datas@[k as int],
                    cmds@ == base + seq![
                        DrawCommand::SetPipeline { pass_pipeline: k as usize },
                    ] + spec_vertex_commands(*rec, s as int),
                decreases rec.used_views@.len() - s,
            {
                cmds.push(
                    DrawCommand::SetVertexBuffer {
                        slot: s,
                        buffer_id: rec.used_views[s].view_index,
                        offset: rec.used_views[s].offset,
                    },
                );
                proof {
                    assert(cmds@ =~= base + seq![
                        DrawCommand::SetPipeline { pass_pipeline: k as usize },
                    ] + spec_vertex_commands(*rec, s + 1));
                }
                s = s + 1;
            }
            cmds.push(
                DrawCommand::SetBindGroup { index: start, group_id: rec.transform_bind_group_id },
            );
            cmds.push(
                DrawCommand::SetBindGroup {
                    index: start + 1,
                    group_id: rec.material_bind_group_id,
                },
            );
            match rec.index_data {
                Some(ix) => {
                    cmds.push(
                        DrawCommand::SetIndexBuffer {
                            buffer_id: ix.buffer_id,
                            format: ix.format,
                            offset: ix.offset,
                        },
                    );
                    cmds.push(DrawCommand::DrawIndexed { count: rec.draw_count });
                },
                None => {
                    cmds.push(DrawCommand::Draw { count: rec.draw_count });
                },
            }
            proof {
                assert(cmds@ =~= spec_draw_commands_upto(
                    self.render_datas@,
                    start,
                    k + 1,
                ));
            }
            k = k + 1;
        }
        cmds
    }
}

/// Two passes registered under different names on the same built
/// scene hold two independent pipeline sets of equal length -- one
/// pipeline per draw record each -- that share no compiled pipeline:
/// every pipeline id of one set differs from every id of the other.
pub proof fn lemma_independent_pipeline_sets(s: Scene, name_a: Seq<char>, name_b: Seq<char>)
    requires
        s.wf(),
        name_a != name_b,
        s.spec_find_pass(name_a) is Some,
        s.spec_find_pass(name_b) is Some,
    ensures
        ({
            let a = s.pipeline_lists@[s.spec_find_pass(name_a).unwrap()].1;
            let b = s.pipeline_lists@[s.spec_find_pass(name_b).unwrap()].1;
            &&& s.spec_find_pass(name_a).unwrap() != s.spec_find_pass(name_b).unwrap()
            &&& a.pipeline_list@.len() == s.render_datas@.len()
            &&& b.pipeline_list@.len() == s.render_datas@.len()
            &&& forall|k: int, k2: int|
                0 <= k < a.pipeline_list@.len() && 0 <= k2 < b.pipeline_list@.len()
                    ==> (#[trigger] a.pipeline_list@[k]).id != (#[trigger] b.pipeline_list@[k2]).id
        }),
{
    lemma_find_pass_props(s.pipeline_lists@, name_a);
    lemma_find_pass_props(s.pipeline_lists@, name_b);
}

/// Copies a layout reference list.
fn copy_layout_refs(refs: &Vec<LayoutRef>) -> (r: Vec<LayoutRef>)
    ensures
        r@ == refs@,
{
    let mut out: Vec<LayoutRef> = Vec::new();
    let mut i: usize = 0;
    while i < refs.len()
        invariant
            i <= refs.len(),
            out@ == refs@.subrange(0, i as int),
        decreases refs.len() - i,
    {
        out.push(refs[i]);
        proof {
            assert(out@ =~= refs@.subrange(0, i + 1));
        }
        i = i + 1;
    }
    proof {
        assert(out@ =~= refs@);
    }
    out
}

/// What a match result means: a found index is the first match, and
/// a miss means no key matches at all.
proof fn lemma_find_pass_props(lists: Seq<(String, PipelineData)>, name: Seq<char>)
    ensures
        match spec_find_pass_in(lists, name) {
            Some(i) => 0 <= i < lists.len() && lists[i].0@ == name && forall|j: int|
                0 <= j < i ==> (#[trigger] lists[j]).0@ != name,
            None => forall|j: int| 0 <= j < lists.len() ==> (#[trigger] lists[j]).0@ != name,
        },
    decreases lists.len(),
{
    if lists.len() == 0 {
    } else if lists[0].0@ == name {
    } else {
        lemma_find_pass_props(lists.drop_first(), name);
        match spec_find_pass_in(lists.drop_first(), name) {
            Some(i) => {
                assert(lists[i + 1] == lists.drop_first()[i]);
                assert forall|j: int| 0 <= j < i + 1 implies (#[trigger] lists[j]).0@
                    != name by {
                    if j > 0 {
                        assert(lists[j] == lists.drop_first()[j - 1]);
                    }
                }
            },
            None => {
                assert forall|j: int| 0 <= j < lists.len() implies (#[trigger] lists[j]).0@
                    != name by {
                    if j > 0 {
                        assert(lists[j] == lists.drop_first()[j - 1]);
                    }
                }
            },
        }
    }
}

/// A position whose key matches, with no match before it, is the
/// match of the whole list.
proof fn lemma_find_pass_at(lists: Seq<(String, PipelineData)>, name: Seq<char>, i: int)
    requires
        0 <= i < lists.len(),
        lists[i].0@ == name,
        forall|j: int| 0 <= j < i ==> (#[trigger] lists[j]).0@ != name,
    ensures
        spec_find_pass_in(lists, name) == Some(i),
{
    lemma_find_pass_skip(lists, name, i);
    assert(lists.skip(i)[0] == lists[i]);
}

} // verus!
