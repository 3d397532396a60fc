//! Per-primitive resolution: attribute streams, index stream, counts.
//!
//! An attribute stream resolves when its accessor carries a buffer
//! view; resolving it allocates the view's buffer through the cache
//! and updates the draw count, whatever its semantic.  Only streams
//! with a recognized semantic enter the vertex layout and the bound
//! view list; unrecognized semantics are excluded without aborting
//! the load.  The draw count is the element count of the last
//! resolved attribute, overridden by the index accessor's count when
//! the primitive is indexed.  A primitive that resolves no attribute
//! stream at all is a fatal load error.

use vstd::prelude::*;
use crate::cache::{
    round_up4, spec_buffer_plan, BufferUsage, PlanModel, ResourceCache,
};
use crate::desc::{BufferViewDesc, PrimitiveDesc, SceneDesc};
use crate::error::{LoadError, ResourceError};
use crate::formats::{
    default_array_stride, DataType, index_format_for, spec_default_array_stride, spec_index_format,
    spec_vertex_format, vertex_format_for,
};
use crate::scene::{
    spec_layouts_view, IndexData, LayoutModel, VertexAttributeDesc, VertexBufferLayoutBuilder,
    VertexStepMode, ViewData,
};
use crate::shader::{spec_attribute_of, Attribute, Semantic};

verus! {

/// Whether an attribute stream resolves: its accessor carries a view.
pub open spec fn spec_attr_resolved(desc: SceneDesc, att: (Semantic, usize)) -> bool {
    desc.accessors@[att.1 as int].view is Some
}

/// Whether an attribute stream enters the vertex layout: it resolves
/// and its semantic is recognized.
pub open spec fn spec_attr_included(desc: SceneDesc, att: (Semantic, usize)) -> bool {
    spec_attr_resolved(desc, att) && spec_attribute_of(att.0) != Attribute::Unknown
}

/// The resolving attribute streams of a list, in declaration order.
pub open spec fn spec_resolved_attrs(desc: SceneDesc, atts: Seq<(Semantic, usize)>) -> Seq<
    (Semantic, usize),
>
    decreases atts.len(),
{
    if atts.len() == 0 {
        Seq::empty()
    } else if spec_attr_resolved(desc, atts.last()) {
        spec_resolved_attrs(desc, atts.drop_last()).push(atts.last())
    } else {
        spec_resolved_attrs(desc, atts.drop_last())
    }
}

/// The layout-entering attribute streams of a list, in order.
pub open spec fn spec_included_attrs(desc: SceneDesc, atts: Seq<(Semantic, usize)>) -> Seq<
    (Semantic, usize),
>
    decreases atts.len(),
{
    if atts.len() == 0 {
        Seq::empty()
    } else if spec_attr_included(desc, atts.last()) {
        spec_included_attrs(desc, atts.drop_last()).push(atts.last())
    } else {
        spec_included_attrs(desc, atts.drop_last())
    }
}

/// The bound-view entry of a resolving attribute stream.
pub open spec fn spec_attr_view_data(desc: SceneDesc, att: (Semantic, usize)) -> ViewData {
    let acc = desc.accessors@[att.1 as int];
    ViewData { view_index: acc.view.unwrap(), offset: acc.offset }
}

/// The byte stride of a resolving attribute stream: the view's
/// declared stride, or the tightly packed stride of the accessor's
/// element layout when the view declares none.
pub open spec fn spec_attr_stride(desc: SceneDesc, att: (Semantic, usize)) -> int {
    let acc = desc.accessors@[att.1 as int];
    match desc.views@[acc.view.unwrap() as int].stride {
        Some(s) => s as int,
        None => spec_default_array_stride(acc.dimensions, acc.data_type),
    }
}

/// The single-attribute vertex layout fragment of a layout-entering
/// attribute stream.
pub open spec fn spec_attr_layout(desc: SceneDesc, att: (Semantic, usize)) -> LayoutModel {
    let acc = desc.accessors@[att.1 as int];
    LayoutModel {
        array_stride: spec_attr_stride(desc, att) as u64,
        step_mode: VertexStepMode::Vertex,
        attributes: seq![
            VertexAttributeDesc {
                format: spec_vertex_format(acc.normalized, acc.dimensions, acc.data_type).unwrap(),
                offset: 0,
                shader_location: spec_attribute_of(att.0).spec_shader_location(),
            },
        ],
    }
}

/// Whether a layout-entering stream's declared layout has a vertex
/// format.
pub open spec fn spec_attr_format_ok(desc: SceneDesc, att: (Semantic, usize)) -> bool {
    let acc = desc.accessors@[att.1 as int];
    spec_vertex_format(acc.normalized, acc.dimensions, acc.data_type) is Some
}

/// The index reference of an indexed primitive.
pub open spec fn spec_index_data(desc: SceneDesc, prim: PrimitiveDesc) -> Option<IndexData> {
    match prim.indices {
        None => None,
        Some(ix) => {
            let acc = desc.accessors@[ix as int];
            Some(
                IndexData {
                    buffer_id: acc.view.unwrap(),
                    format: spec_index_format(acc.data_type).unwrap(),
                    offset: acc.offset,
                },
            )
        },
    }
}

/// The draw count of a primitive: the index accessor's element count
/// when indexed, else the element count of the last resolving
/// attribute stream, else zero.
pub open spec fn spec_draw_count(desc: SceneDesc, prim: PrimitiveDesc) -> u32 {
    match prim.indices {
        Some(ix) => desc.accessors@[ix as int].count,
        None => {
            let rs = spec_resolved_attrs(desc, prim.attributes@);
            if rs.len() == 0 {
                0
            } else {
                desc.accessors@[rs.last().1 as int].count
            }
        },
    }
}

/// Whether a buffer view can be resolved against the decoded buffers:
/// its source buffer exists and covers the padded byte range.
pub open spec fn spec_view_resolvable(view: BufferViewDesc, buffers: Seq<Seq<u8>>) -> bool {
    &&& view.buffer < buffers.len()
    &&& view.offset + round_up4(view.length as int) <= buffers[view.buffer as int].len()
}

/// The error an unresolvable view raises.
pub open spec fn spec_view_error(view: BufferViewDesc, buffers: Seq<Seq<u8>>) -> ResourceError {
    if view.buffer >= buffers.len() {
        ResourceError::BufferOutOfRange
    } else {
        ResourceError::RangeOutOfBounds
    }
}

/// A primitive that loads without error: at least one attribute
/// stream resolves, every layout-entering stream has a vertex format,
/// an index accessor (if any) carries a view of 16-bit or 32-bit
/// unsigned width, and every touched buffer view resolves against the
/// decoded buffers.
pub open spec fn spec_prim_ok(desc: SceneDesc, prim: PrimitiveDesc, buffers: Seq<Seq<u8>>) -> bool {
    &&& spec_resolved_attrs(desc, prim.attributes@).len() >= 1
    &&& forall|a: int|
        0 <= a < prim.attributes@.len() && spec_attr_included(desc, #[trigger] prim.attributes@[a])
            ==> spec_attr_format_ok(desc, prim.attributes@[a])
    &&& forall|a: int|
        0 <= a < prim.attributes@.len() && spec_attr_resolved(desc, #[trigger] prim.attributes@[a])
            ==> spec_view_resolvable(
            desc.views@[desc.accessors@[prim.attributes@[a].1 as int].view.unwrap() as int],
            buffers,
        )
    &&& match prim.indices {
        None => true,
        Some(ix) => {
            let acc = desc.accessors@[ix as int];
            &&& acc.view is Some
            &&& spec_index_format(acc.data_type) is Some
            &&& spec_view_resolvable(desc.views@[acc.view.unwrap() as int], buffers)
        },
    }
}

/// Why a primitive failed to load, by error.
pub open spec fn spec_prim_error(
    desc: SceneDesc,
    prim: PrimitiveDesc,
    buffers: Seq<Seq<u8>>,
    e: LoadError,
) -> bool {
    match e {
        LoadError::NoRenderableAttributes => spec_resolved_attrs(desc, prim.attributes@).len()
            == 0,
        LoadError::UnsupportedVertexFormat => exists|a: int|
            0 <= a < prim.attributes@.len() && spec_attr_included(
                desc,
                #[trigger] prim.attributes@[a],
            ) && !spec_attr_format_ok(desc, prim.attributes@[a]),
        LoadError::IndexWithoutView => match prim.indices {
            Some(ix) => desc.accessors@[ix as int].view is None,
            None => false,
        },
        LoadError::UnsupportedIndexFormat => match prim.indices {
            Some(ix) => spec_index_format(desc.accessors@[ix as int].data_type) is None,
            None => false,
        },
        LoadError::Resource(re) => (exists|a: int|
            0 <= a < prim.attributes@.len() && spec_attr_resolved(
                desc,
                #[trigger] prim.attributes@[a],
            ) && !spec_view_resolvable(
                desc.views@[desc.accessors@[prim.attributes@[a].1 as int].view.unwrap() as int],
                buffers,
            ) && re == spec_view_error(
                desc.views@[desc.accessors@[prim.attributes@[a].1 as int].view.unwrap() as int],
                buffers,
            )) || (match prim.indices {
            Some(ix) => {
                let acc = desc.accessors@[ix as int];
                &&& acc.view is Some
                &&& !spec_view_resolvable(desc.views@[acc.view.unwrap() as int], buffers)
                &&& re == spec_view_error(desc.views@[acc.view.unwrap() as int], buffers)
            },
            None => false,
        }),
        _ => false,
    }
}

/// A primitive without an index accessor draws vertices: its record
/// carries no index reference, and its draw count is the element
/// count of the last attribute stream that resolves -- in particular,
/// a primitive whose only resolving stream is a position stream of
/// `N` elements draws exactly `N` vertices.
pub proof fn lemma_unindexed_draw(desc: SceneDesc, prim: PrimitiveDesc)
    requires
        prim.indices is None,
    ensures
        spec_index_data(desc, prim) is None,
        spec_resolved_attrs(desc, prim.attributes@).len() > 0 ==> spec_draw_count(desc, prim)
            == desc.accessors@[spec_resolved_attrs(desc, prim.attributes@).last().1 as int].count,
        (spec_resolved_attrs(desc, prim.attributes@).len() == 1 && spec_resolved_attrs(
            desc,
            prim.attributes@,
        ).last().0 == Semantic::Positions) ==> spec_draw_count(desc, prim)
            == desc.accessors@[spec_resolved_attrs(desc, prim.attributes@)[0].1 as int].count,
{
}

/// An indexed primitive draws indices: its draw count is the index
/// accessor's element count, whatever its attribute streams hold, and
/// its index reference carries the accessor's declared width -- two
/// bytes for a 16-bit accessor, four for a 32-bit one.
pub proof fn lemma_indexed_draw(desc: SceneDesc, prim: PrimitiveDesc, ix: usize)
    requires
        prim.indices == Some(ix),
        0 <= (ix as int) && (ix as int) < desc.accessors@.len(),
        desc.accessors@[ix as int].view is Some,
        spec_index_format(desc.accessors@[ix as int].data_type) is Some,
    ensures
        spec_draw_count(desc, prim) == desc.accessors@[ix as int].count,
        spec_index_data(desc, prim) is Some,
        desc.accessors@[ix as int].data_type == DataType::U16
            ==> spec_index_data(desc, prim).unwrap().format.spec_byte_size() == 2,
        desc.accessors@[ix as int].data_type == DataType::U32
            ==> spec_index_data(desc, prim).unwrap().format.spec_byte_size() == 4,
{
}

/// A successful cache request preserves every filled slot, keeps the
/// slot account, and leaves the requested view's slot filled; a view
/// whose request succeeded is resolvable.
proof fn lemma_cache_step(
    pre: Seq<Option<PlanModel>>,
    post: Seq<Option<PlanModel>>,
    views: Seq<BufferViewDesc>,
    buffers: Seq<Seq<u8>>,
    v: int,
    usage: BufferUsage,
)
    requires
        0 <= v < pre.len(),
        pre.len() == views.len(),
        post == crate::cache::spec_get_or_create(pre, views, buffers, v, usage).0,
        crate::cache::spec_get_or_create(pre, views, buffers, v, usage).1 is Ok,
        spec_cache_slots_ok(pre, views, buffers),
    ensures
        post.len() == pre.len(),
        spec_cache_slots_ok(post, views, buffers),
        forall|v2: int| 0 <= v2 < pre.len() && (#[trigger] pre[v2]) is Some ==> post[v2] == pre[v2],
        post[v] is Some,
        spec_view_resolvable(views[v], buffers),
{
    match pre[v] {
        Some(p) => {
            assert(spec_buffer_plan(views[v], v, buffers, p.usage) == Ok::<
                PlanModel,
                ResourceError,
            >(p));
        },
        None => {
            assert(spec_buffer_plan(views[v], v, buffers, usage) is Ok);
            assert forall|v2: int|
                0 <= v2 < post.len() implies match (#[trigger] post[v2]) {
                Some(p) => spec_buffer_plan(views[v2], v2, buffers, p.usage) == Ok::<
                    PlanModel,
                    ResourceError,
                >(p),
                None => true,
            } by {
                if v2 != v {
                    assert(post[v2] == pre[v2]);
                }
            }
        },
    }
}

/// Every filled cache slot holds exactly the allocation its view
/// resolves to.
pub open spec fn spec_cache_slots_ok(
    cache: Seq<Option<PlanModel>>,
    views: Seq<BufferViewDesc>,
    buffers: Seq<Seq<u8>>,
) -> bool {
    forall|v: int|
        0 <= v < cache.len() ==> match (#[trigger] cache[v]) {
            Some(p) => spec_buffer_plan(views[v], v, buffers, p.usage) == Ok::<
                PlanModel,
                ResourceError,
            >(p),
            None => true,
        }
}

/// The vertex layout fragments of the layout-entering streams of an
/// attribute list, in order.
pub open spec fn spec_layouts_of(desc: SceneDesc, atts: Seq<(Semantic, usize)>) -> Seq<LayoutModel>
    decreases atts.len(),
{
    if atts.len() == 0 {
        Seq::empty()
    } else if spec_attr_included(desc, atts.last()) {
        spec_layouts_of(desc, atts.drop_last()).push(spec_attr_layout(desc, atts.last()))
    } else {
        spec_layouts_of(desc, atts.drop_last())
    }
}

/// The bound-view entries of the layout-entering streams of an
/// attribute list, in order.
pub open spec fn spec_views_of(desc: SceneDesc, atts: Seq<(Semantic, usize)>) -> Seq<ViewData>
    decreases atts.len(),
{
    if atts.len() == 0 {
        Seq::empty()
    } else if spec_attr_included(desc, atts.last()) {
        spec_views_of(desc, atts.drop_last()).push(spec_attr_view_data(desc, atts.last()))
    } else {
        spec_views_of(desc, atts.drop_last())
    }
}

/// The layout list and the bound-view list of a primitive run in
/// lockstep: one entry each per layout-entering stream.
pub proof fn lemma_streams_len(desc: SceneDesc, atts: Seq<(Semantic, usize)>)
    ensures
        spec_layouts_of(desc, atts).len() == spec_included_attrs(desc, atts).len(),
        spec_views_of(desc, atts).len() == spec_included_attrs(desc, atts).len(),
    decreases atts.len(),
{
    if atts.len() > 0 {
        lemma_streams_len(desc, atts.drop_last());
    }
}

/// The vertex layout fragments of the layout-entering streams.
pub open spec fn spec_prim_layouts(desc: SceneDesc, prim: PrimitiveDesc) -> Seq<LayoutModel> {
    spec_layouts_of(desc, prim.attributes@)
}

/// The bound-view entries of the layout-entering streams.
pub open spec fn spec_prim_views(desc: SceneDesc, prim: PrimitiveDesc) -> Seq<ViewData> {
    spec_views_of(desc, prim.attributes@)
}

/// Resolves one primitive's streams against the cache: allocates the
/// buffer of every resolving attribute stream and of the index
/// stream, and produces the layout fragments, bound views, draw count
/// and index reference of the primitive's draw record.
pub(crate) fn process_primitive(
    desc: &SceneDesc,
    prim: &PrimitiveDesc,
    buffers: &Vec<Vec<u8>>,
    cache: &mut ResourceCache,
) -> (r: Result<(Vec<VertexBufferLayoutBuilder>, Vec<ViewData>, u32, Option<IndexData>), LoadError>)
    requires
        forall|aa: int|
            0 <= aa < prim.attributes@.len() ==> (#[trigger] prim.attributes@[aa]).1
                < desc.accessors@.len(),
        prim.indices is Some ==> prim.indices.unwrap() < desc.accessors@.len(),
        crate::validate::spec_accessors_in_range(*desc),
        old(cache)@.len() == desc.views@.len(),
        spec_cache_slots_ok(old(cache)@, desc.views@, buffers.deep_view()),
    ensures
        final(cache)@.len() == old(cache)@.len(),
        spec_cache_slots_ok(final(cache)@, desc.views@, buffers.deep_view()),
        forall|v: int|
            0 <= v < old(cache)@.len() && (#[trigger] old(cache)@[v]) is Some ==> final(cache)@[v]
                == old(cache)@[v],
        match r {
            Ok(parts) => {
                &&& spec_prim_ok(*desc, *prim, buffers.deep_view())
                &&& spec_layouts_view(parts.0@) == spec_prim_layouts(*desc, *prim)
                &&& parts.1@ == spec_prim_views(*desc, *prim)
                &&& parts.2 == spec_draw_count(*desc, *prim)
                &&& parts.3 == spec_index_data(*desc, *prim)
                &&& forall|aa: int|
                    0 <= aa < prim.attributes@.len() && spec_attr_resolved(
                        *desc,
                        #[trigger] prim.attributes@[aa],
                    ) ==> final(cache)@[desc.accessors@[prim.attributes@[aa].1 as int].view.unwrap() as int] is Some
                &&& match prim.indices {
                    Some(ix) => final(cache)@[desc.accessors@[ix as int].view.unwrap() as int] is Some,
                    None => true,
                }
            },
            Err(e) => spec_prim_error(*desc, *prim, buffers.deep_view(), e),
        },
{
    let mut layouts: Vec<VertexBufferLayoutBuilder> = Vec::new();
    let mut used_views: Vec<ViewData> = Vec::new();
    let mut draw_count: u32 = 0;
    let mut has_resolved: bool = false;
    let att_count = prim.attributes.len();
    let mut a: usize = 0;
    while a < att_count
        invariant
            a <= att_count,
            att_count == prim.attributes@.len(),
            forall|aa: int|
                0 <= aa < prim.attributes@.len() ==> (#[trigger] prim.attributes@[aa]).1
                    < desc.accessors@.len(),
            crate::validate::spec_accessors_in_range(*desc),
            cache@.len() == desc.views@.len(),
            old(cache)@.len() == desc.views@.len(),
            spec_cache_slots_ok(cache@, desc.views@, buffers.deep_view()),
            forall|v: int|
                0 <= v < old(cache)@.len() && (#[trigger] old(cache)@[v]) is Some ==> cache@[v]
                    == old(cache)@[v],
            spec_layouts_view(layouts@) == spec_layouts_of(
                *desc,
                prim.attributes@.take(a as int),
            ),
            used_views@ == spec_views_of(*desc, prim.attributes@.take(a as int)),
            has_resolved == (spec_resolved_attrs(*desc, prim.attributes@.take(a as int)).len()
                > 0),
            draw_count == ({
                let rs = spec_resolved_attrs(*desc, prim.attributes@.take(a as int));
                if rs.len() == 0 {
                    0u32
                } else {
                    desc.accessors@[rs.last().1 as int].count
                }
            }),
            forall|aa: int|
                0 <= aa < a && spec_attr_resolved(*desc, #[trigger] prim.attributes@[aa])
                    ==> cache@[desc.accessors@[prim.attributes@[aa].1 as int].view.unwrap() as int] is Some,
            forall|aa: int|
                0 <= aa < a && spec_attr_included(*desc, #[trigger] prim.attributes@[aa])
                    ==> spec_attr_format_ok(*desc, prim.attributes@[aa]),
            forall|aa: int|
                0 <= aa < a && spec_attr_resolved(*desc, #[trigger] prim.attributes@[aa])
                    ==> spec_view_resolvable(
                    desc.views@[desc.accessors@[prim.attributes@[aa].1 as int].view.unwrap() as int],
                    buffers.deep_view(),
                ),
        decreases att_count - a,
    {
        let ghost pre_take = prim.attributes@.take(a as int);
        let ghost cache0 = cache@;
        let (sem, acc_idx) = prim.attributes[a];
        let acc = &desc.accessors[acc_idx];
        proof {
            assert(prim.attributes@.take(a + 1).drop_last() =~= prim.attributes@.take(a as int));
            assert(prim.attributes@.take(a + 1).last() == prim.attributes@[a as int]);
        }
        match acc.view {
            None => {
                proof {
                    assert(!spec_attr_resolved(*desc, prim.attributes@[a as int]));
                    assert(spec_included_attrs(*desc, prim.attributes@.take(a + 1))
                        =~= spec_included_attrs(*desc, pre_take));
                    assert(spec_resolved_attrs(*desc, prim.attributes@.take(a + 1))
                        =~= spec_resolved_attrs(*desc, pre_take));
                    assert(spec_layouts_of(*desc, prim.attributes@.take(a + 1))
                        =~= spec_layouts_of(*desc, pre_take));
                    assert(spec_views_of(*desc, prim.attributes@.take(a + 1)) =~= spec_views_of(
                        *desc,
                        pre_take,
                    ));
                }
            },
            Some(v) => {
                proof {
                    assert(spec_attr_resolved(*desc, prim.attributes@[a as int]));
                    assert(spec_resolved_attrs(*desc, prim.attributes@.take(a + 1))
                        =~= spec_resolved_attrs(*desc, pre_take).push(
                        prim.attributes@[a as int],
                    ));
                    assert(v < desc.views@.len());
                }
                match cache.get_or_create(&desc.views, buffers, v, BufferUsage::Vertex) {
                    Ok(_) => {
                        proof {
                            lemma_cache_step(cache0, cache@, desc.views@, buffers.deep_view(), v as int, BufferUsage::Vertex);
                            assert forall|v2: int|
                                0 <= v2 < old(cache)@.len() && (#[trigger] old(cache)@[v2]) is Some implies cache@[v2]
                                == old(cache)@[v2] by {
                                assert(cache0[v2] == old(cache)@[v2]);
                            }
                        }
                    },
                    Err(re) => {
                        proof {
                            assert(cache@ =~= cache0);
                            assert(!spec_view_resolvable(
                                desc.views@[v as int],
                                buffers.deep_view(),
                            ));
                            assert(re == spec_view_error(desc.views@[v as int], buffers.deep_view()));
                            assert(spec_prim_error(
                                *desc,
                                *prim,
                                buffers.deep_view(),
                                LoadError::Resource(re),
                            )) by {
                                assert(0 <= a < prim.attributes@.len() && spec_attr_resolved(
                                    *desc,
                                    prim.attributes@[a as int],
                                ) && !spec_view_resolvable(
                                    desc.views@[desc.accessors@[prim.attributes@[a as int].1 as int].view.unwrap() as int],
                                    buffers.deep_view(),
                                ));
                            }
                        }
                        return Err(LoadError::Resource(re));
                    },
                }
                has_resolved = true;
                draw_count = acc.count;
                let attr = Attribute::from_semantic(&sem);
                if attr == Attribute::Unknown {
                    proof {
                        assert(!spec_attr_included(*desc, prim.attributes@[a as int]));
                        assert(spec_included_attrs(*desc, prim.attributes@.take(a + 1))
                            =~= spec_included_attrs(*desc, pre_take));
                        assert(spec_layouts_of(*desc, prim.attributes@.take(a + 1))
                            =~= spec_layouts_of(*desc, pre_take));
                        assert(spec_views_of(*desc, prim.attributes@.take(a + 1))
                            =~= spec_views_of(*desc, pre_take));
                    }
                } else {
                    let format = match vertex_format_for(acc.normalized, acc.dimensions, acc.data_type) {
                        Some(f) => f,
                        None => {
                            proof {
                                assert(spec_attr_included(*desc, prim.attributes@[a as int]));
                                assert(!spec_attr_format_ok(*desc, prim.attributes@[a as int]));
                            }
                            return Err(LoadError::UnsupportedVertexFormat);
                        },
                    };
                    let stride: usize = match desc.views[v].stride {
                        Some(s) => s,
                        None => default_array_stride(acc.dimensions, acc.data_type),
                    };
                    let ghost layouts0 = layouts@;
                    let ghost used0 = used_views@;
                    let mut one_attr: Vec<VertexAttributeDesc> = Vec::new();
                    one_attr.push(
                        VertexAttributeDesc {
                            format,
                            offset: 0,
                            shader_location: attr.shader_location(),
                        },
                    );
                    let layout = VertexBufferLayoutBuilder::new(
                        stride as u64,
                        VertexStepMode::Vertex,
                        one_attr,
                    );
                    layouts.push(layout);
                    used_views.push(ViewData { view_index: v, offset: acc.offset });
                    proof {
                        let att = prim.attributes@[a as int];
                        assert(spec_attr_included(*desc, att));
                        assert(layouts@.last()@ == spec_attr_layout(*desc, att)) by {
                            assert(layouts@.last().attributes@ =~= seq![
                                VertexAttributeDesc {
                                    format,
                                    offset: 0,
                                    shader_location: attr.spec_shader_location(),
                                },
                            ]);
                        }
                        assert(spec_layouts_of(*desc, prim.attributes@.take(a + 1))
                            == spec_layouts_of(*desc, pre_take).push(
                            spec_attr_layout(*desc, att),
                        ));
                        assert(spec_layouts_view(layouts@) =~= spec_layouts_view(layouts0).push(
                            layouts@.last()@,
                        ));
                        assert(spec_layouts_view(layouts@) == spec_layouts_of(
                            *desc,
                            prim.attributes@.take(a + 1),
                        ));
                        assert(used_views@.last() == spec_attr_view_data(*desc, att));
                        assert(spec_views_of(*desc, prim.attributes@.take(a + 1)) == spec_views_of(
                            *desc,
                            pre_take,
                        ).push(spec_attr_view_data(*desc, att)));
                        assert(used_views@ =~= used0.push(used_views@.last()));
                        assert(used_views@ == spec_views_of(*desc, prim.attributes@.take(a + 1)));
                    }
                }
            },
        }
        a = a + 1;
    }
    proof {
        assert(prim.attributes@.take(att_count as int) =~= prim.attributes@);
    }
    if !has_resolved {
        return Err(LoadError::NoRenderableAttributes);
    }
    let index_data: Option<IndexData> = match prim.indices {
        None => None,
        Some(ix) => {
            let acc = &desc.accessors[ix];
            let v = match acc.view {
                Some(v) => v,
                None => {
                    return Err(LoadError::IndexWithoutView);
                },
            };
            let format = match index_format_for(acc.data_type) {
                Some(f) => f,
                None => {
                    return Err(LoadError::UnsupportedIndexFormat);
                },
            };
            proof {
                assert(v < desc.views@.len());
            }
            let ghost cache1 = cache@;
            match cache.get_or_create(&desc.views, buffers, v, BufferUsage::Index) {
                Ok(_) => {
                    proof {
                        lemma_cache_step(cache1, cache@, desc.views@, buffers.deep_view(), v as int, BufferUsage::Index);
                        assert forall|v2: int|
                            0 <= v2 < old(cache)@.len() && (#[trigger] old(cache)@[v2]) is Some implies cache@[v2]
                            == old(cache)@[v2] by {
                            assert(cache1[v2] == old(cache)@[v2]);
                        }
                    }
                },
                Err(re) => {
                    proof {
                        assert(cache@ =~= cache1);
                        assert(!spec_view_resolvable(desc.views@[v as int], buffers.deep_view()));
                        assert(re == spec_view_error(desc.views@[v as int], buffers.deep_view()));
                    }
                    return Err(LoadError::Resource(re));
                },
            }
            draw_count = acc.count;
            Some(IndexData { buffer_id: v, format, offset: acc.offset })
        },
    };
    proof {
        // Every resolving stream's view is cached, so by the cache
        // account every one of them resolves against the buffers.
        assert forall|aa: int|
            0 <= aa < prim.attributes@.len() && spec_attr_resolved(
                *desc,
                #[trigger] prim.attributes@[aa],
            ) implies spec_view_resolvable(
            desc.views@[desc.accessors@[prim.attributes@[aa].1 as int].view.unwrap() as int],
            buffers.deep_view(),
        ) by {}
    }
    Ok((layouts, used_views, draw_count, index_data))
}

} // verus!
