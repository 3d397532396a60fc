//! Building a scene from its description.
//!
//! The build validates the description, walks the node forest, and
//! emits one transform binding group per visited node -- mesh or not,
//! so binding-group ids stay aligned with the traversal -- and, per
//! primitive of a visited node's mesh, one material binding group and
//! one draw record, resolving every buffer view through the resource
//! cache.  A malformed or unsupported description fails the whole
//! build; nothing partial is ever returned.

use vstd::prelude::*;
use crate::cache::ResourceCache;
use crate::desc::SceneDesc;
use crate::error::LoadError;
use crate::material::spec_resolve_material;
use crate::prims::{
    lemma_streams_len, process_primitive, spec_cache_slots_ok, spec_prim_error, spec_prim_ok,
    spec_prim_layouts, spec_prim_views, spec_draw_count, spec_index_data,
};
use crate::registry::PipelineData;
use crate::scene::{
    spec_factors_view, spec_layouts_view, BindGroupPlan, PrimitiveRenderData, Scene,
};
use crate::traverse::{
    copy_factors, lemma_entry_reachable, lemma_path_in_order, spec_in_entries, spec_is_root,
    spec_order_good, spec_reachable, visit_order, VisitEntry,
};
use crate::validate::{spec_scene_valid, validate_scene};

verus! {

/// Whether node `j` appears among the first `e` visit entries.
pub open spec fn spec_in_prefix(order: Seq<VisitEntry>, e: int, j: int) -> bool {
    exists|e2: int| 0 <= e2 < e && (#[trigger] order[e2]).0 == j
}

/// Whether some draw record came from primitive `pi` of node `j`.
pub open spec fn spec_rec_exists(sources: Seq<(int, int)>, j: int, pi: int) -> bool {
    exists|ridx: int| 0 <= ridx < sources.len() && (#[trigger] sources[ridx]) == (j, pi)
}

/// Whether every primitive of node `j`'s mesh, if it has one, has a
/// draw record.
pub open spec fn spec_node_complete(desc: SceneDesc, sources: Seq<(int, int)>, j: int) -> bool {
    desc.nodes@[j].mesh is Some ==> forall|pi: int|
        0 <= pi < desc.meshes@[desc.nodes@[j].mesh.unwrap() as int].primitives@.len()
            ==> #[trigger] spec_rec_exists(sources, j, pi)
}

/// A record source list keeps every record when it grows.
proof fn lemma_rec_exists_push(sources: Seq<(int, int)>, x: (int, int), j: int, pi: int)
    requires
        spec_rec_exists(sources, j, pi),
    ensures
        spec_rec_exists(sources.push(x), j, pi),
{
    let wr = choose|ridx: int|
        0 <= ridx < sources.len() && (#[trigger] sources[ridx]) == (j, pi);
    assert(sources.push(x)[wr] == sources[wr]);
}

/// Whether a draw record is exactly the record of primitive `pi` of
/// visited node `j`: it carries the node's transform group, a
/// material group resolving the primitive's material, the layout
/// fragments, bound views, draw count and index reference that the
/// primitive's streams resolve to, and the primitive itself loads
/// without error.
pub open spec fn spec_record_matches(
    desc: SceneDesc,
    buffers: Seq<Seq<u8>>,
    rec: PrimitiveRenderData,
    j: int,
    pi: int,
    tgid: int,
    groups: Seq<BindGroupPlan>,
) -> bool {
    let prim = desc.meshes@[desc.nodes@[j].mesh.unwrap() as int].primitives@[pi];
    &&& rec.transform_bind_group_id == tgid
    &&& rec.material_bind_group_id < groups.len()
    &&& groups[rec.material_bind_group_id as int].is_material()
    &&& groups[rec.material_bind_group_id as int].spec_material() == spec_resolve_material(
        desc.materials@,
        prim.material,
    )
    &&& spec_layouts_view(rec.layouts@) == spec_prim_layouts(desc, prim)
    &&& rec.used_views@ == spec_prim_views(desc, prim)
    &&& rec.draw_count == spec_draw_count(desc, prim)
    &&& rec.index_data == spec_index_data(desc, prim)
    &&& spec_prim_ok(desc, prim, buffers)
}

/// Whether some reachable primitive fails to load with error `e`.
pub open spec fn spec_reachable_defect(
    desc: SceneDesc,
    buffers: Seq<Seq<u8>>,
    e: LoadError,
) -> bool {
    exists|j: usize, pi: int|
        #![trigger desc.nodes@[j as int].mesh, spec_prim_error(desc, desc.meshes@[desc.nodes@[j as int].mesh.unwrap() as int].primitives@[pi], buffers, e)]
        j < desc.nodes@.len() && spec_reachable(desc, j) && desc.nodes@[j as int].mesh is Some && 0
            <= pi < desc.meshes@[desc.nodes@[j as int].mesh.unwrap() as int].primitives@.len()
            && spec_prim_error(
            desc,
            desc.meshes@[desc.nodes@[j as int].mesh.unwrap() as int].primitives@[pi],
            buffers,
            e,
        )
}

impl Scene {
    /// Builds a scene from its description and the decoded buffers.
    ///
    /// On success the scene holds, per node reachable from the roots,
    /// one transform binding group whose factor list is the ordered
    /// product making up the node's total transform -- a root's list
    /// is its own local transform, a child's list is its parent's
    /// list extended by the child's local transform -- and, per
    /// primitive of each reachable node's mesh, one material group
    /// and one draw record, with buffers deduplicated by view.
    ///
    /// Fails with `MalformedScene` exactly when the description is
    /// invalid; any other error names a defect of some reachable
    /// primitive, and no partial scene is returned.
    pub fn from_gltf(desc: &SceneDesc, buffer_contents: &Vec<Vec<u8>>) -> (r: Result<
        Scene,
        LoadError,
    >)
        ensures
            match r {
                Ok(scene) => {
                    let m = scene.node_transform@;
                    let sources = scene.record_source@;
                    &&& spec_scene_valid(*desc)
                    &&& scene.wf()
                    &&& scene.pipeline_lists@.len() == 0
                    &&& scene.next_pipeline_id == 0
                    &&& scene.buffers@.len() == desc.views@.len()
                    &&& spec_cache_slots_ok(
                        scene.buffers@,
                        desc.views@,
                        buffer_contents.deep_view(),
                    )
                    &&& forall|j: int|
                        #[trigger] m.dom().contains(j) <==> (0 <= j < desc.nodes@.len()
                            && spec_reachable(*desc, j as usize))
                    &&& forall|j: int|
                        #[trigger] m.dom().contains(j) ==> 0 <= m[j] < scene.bind_groups@.len()
                            && scene.bind_groups@[m[j]].is_transform()
                    &&& forall|j1: int, j2: int|
                        m.dom().contains(j1) && m.dom().contains(j2) && j1 != j2 ==> #[trigger] m[j1]
                            != #[trigger] m[j2]
                    &&& forall|ri: int|
                        0 <= ri < desc.roots@.len() ==> {
                            let j = (#[trigger] desc.roots@[ri]) as int;
                            &&& m.dom().contains(j)
                            &&& scene.bind_groups@[m[j]].spec_factors() == seq![
                                desc.nodes@[j].local_transform@,
                            ]
                        }
                    &&& forall|j: int, k: int|
                        #![trigger m[j], desc.nodes@[j].children@[k]]
                        m.dom().contains(j) && 0 <= k < desc.nodes@[j].children@.len() ==> {
                            let c = desc.nodes@[j].children@[k] as int;
                            &&& m.dom().contains(c)
                            &&& scene.bind_groups@[m[c]].spec_factors()
                                == scene.bind_groups@[m[j]].spec_factors().push(
                                desc.nodes@[c].local_transform@,
                            )
                        }
                    &&& sources.len() == scene.render_datas@.len()
                    &&& forall|ridx: int|
                        0 <= ridx < sources.len() ==> {
                            let (j, pi) = #[trigger] sources[ridx];
                            &&& m.dom().contains(j)
                            &&& desc.nodes@[j].mesh is Some
                            &&& 0 <= pi
                                < desc.meshes@[desc.nodes@[j].mesh.unwrap() as int].primitives@.len()
                            &&& spec_record_matches(
                                *desc,
                                buffer_contents.deep_view(),
                                scene.render_datas@[ridx],
                                j,
                                pi,
                                m[j],
                                scene.bind_groups@,
                            )
                        }
                    &&& forall|r1: int, r2: int|
                        0 <= r1 < r2 < sources.len() ==> (#[trigger] sources[r1]) != (
                        #[trigger] sources[r2])
                    &&& forall|j: int, pi: int|
                        #![trigger m[j], desc.meshes@[desc.nodes@[j].mesh.unwrap() as int].primitives@[pi]]
                        m.dom().contains(j) && desc.nodes@[j].mesh is Some && 0 <= pi
                            < desc.meshes@[desc.nodes@[j].mesh.unwrap() as int].primitives@.len()
                            ==> spec_rec_exists(sources, j, pi)
                },
                Err(e) => {
                    &&& (e == LoadError::MalformedScene <==> !spec_scene_valid(*desc))
                    &&& (e != LoadError::MalformedScene ==> spec_reachable_defect(
                        *desc,
                        buffer_contents.deep_view(),
                        e,
                    ))
                },
            },
    {
        if !validate_scene(desc) {
            return Err(LoadError::MalformedScene);
        }
        let order = visit_order(desc);
        proof {
            assert(spec_order_good(*desc, order@));
        }
        let n = order.len();
        let mut bind_groups: Vec<BindGroupPlan> = Vec::new();
        let mut render_datas: Vec<PrimitiveRenderData> = Vec::new();
        let mut cache = ResourceCache::new(desc.views.len());
        let ghost mut tmap: Map<int, int> = Map::empty();
        let ghost mut sources: Seq<(int, int)> = Seq::empty();
        let mut e: usize = 0;
        while e < n
            invariant
                e <= n,
                n == order@.len(),
                spec_scene_valid(*desc),
                spec_order_good(*desc, order@),
                cache@.len() == desc.views@.len(),
                spec_cache_slots_ok(cache@, desc.views@, buffer_contents.deep_view()),
                forall|j: int|
                    #[trigger] tmap.dom().contains(j) <==> spec_in_prefix(order@, e as int, j),
                forall|e2: int|
                    0 <= e2 < e ==> {
                        let j = (#[trigger] order@[e2]).0 as int;
                        &&& tmap.dom().contains(j)
                        &&& 0 <= tmap[j] < bind_groups@.len()
                        &&& bind_groups@[tmap[j]].is_transform()
                        &&& bind_groups@[tmap[j]].spec_factors() == spec_factors_view(
                            order@[e2].1@,
                        )
                    },
                forall|j1: int, j2: int|
                    tmap.dom().contains(j1) && tmap.dom().contains(j2) && j1 != j2
                        ==> #[trigger] tmap[j1] != #[trigger] tmap[j2],
                forall|j: int| #[trigger] tmap.dom().contains(j) ==> 0 <= tmap[j] < bind_groups@.len(),
                sources.len() == render_datas@.len(),
                forall|ridx: int|
                    0 <= ridx < sources.len() ==> {
                        let (j, pi) = #[trigger] sources[ridx];
                        &&& tmap.dom().contains(j)
                        &&& desc.nodes@[j].mesh is Some
                        &&& 0 <= pi
                            < desc.meshes@[desc.nodes@[j].mesh.unwrap() as int].primitives@.len()
                        &&& spec_record_matches(
                            *desc,
                            buffer_contents.deep_view(),
                            render_datas@[ridx],
                            j,
                            pi,
                            tmap[j],
                            bind_groups@,
                        )
                    },
                forall|r1: int, r2: int|
                    0 <= r1 < r2 < sources.len() ==> (#[trigger] sources[r1]) != (
                    #[trigger] sources[r2]),
                forall|e2: int|
                    0 <= e2 < e ==> spec_node_complete(
                        *desc,
                        sources,
                        (#[trigger] order@[e2]).0 as int,
                    ),
            decreases n - e,
        {
            let ghost groups0 = bind_groups@;
            let ghost tmap0 = tmap;
            let node = order[e].0;
            proof {
                assert(crate::traverse::spec_order_entry_ok(*desc, order@, e as int));
                assert(node < desc.nodes@.len());
                // The node has not been visited before this entry.
                assert(!tmap.dom().contains(node as int)) by {
                    if spec_in_prefix(order@, e as int, node as int) {
                        let we = choose|e2: int|
                            0 <= e2 < e && (#[trigger] order@[e2]).0 == node as int;
                        assert(order@[we].0 == order@[e as int].0);
                    }
                }
            }
            let factors_copy = copy_factors(&order[e].1);
            let tgid = bind_groups.len();
            bind_groups.push(BindGroupPlan::Transform { factors: factors_copy });
            proof {
                tmap = tmap.insert(node as int, tgid as int);
                assert forall|j: int| #[trigger] tmap.dom().contains(j) implies spec_in_prefix(
                    order@,
                    e + 1,
                    j,
                ) by {
                    if j == node as int {
                        assert(order@[e as int].0 == node);
                    } else {
                        let we = choose|e2: int|
                            0 <= e2 < e && (#[trigger] order@[e2]).0 == j;
                    }
                }
                assert forall|j: int|
                    spec_in_prefix(order@, e + 1, j) implies #[trigger] tmap.dom().contains(
                    j,
                ) by {
                    let we = choose|e2: int| 0 <= e2 < e + 1 && (#[trigger] order@[e2]).0 == j;
                    if we < e {
                        assert(spec_in_prefix(order@, e as int, j));
                        assert(tmap0.dom().contains(j));
                    }
                }
                assert forall|e2: int| 0 <= e2 < e + 1 implies {
                    let j = (#[trigger] order@[e2]).0 as int;
                    &&& tmap.dom().contains(j)
                    &&& 0 <= tmap[j] < bind_groups@.len()
                    &&& bind_groups@[tmap[j]].is_transform()
                    &&& bind_groups@[tmap[j]].spec_factors() == spec_factors_view(order@[e2].1@)
                } by {
                    let j = order@[e2].0 as int;
                    if e2 < e {
                        assert(j != node as int) by {
                            if j == node as int {
                                assert(order@[e2].0 == order@[e as int].0);
                            }
                        }
                        assert(tmap[j] == tmap0[j]);
                        assert(bind_groups@[tmap0[j]] == groups0[tmap0[j]]);
                    } else {
                        assert(tmap[j] == tgid as int);
                        assert(spec_factors_view(factors_copy@) == spec_factors_view(
                            order@[e as int].1@,
                        ));
                    }
                }
                assert forall|ridx: int| 0 <= ridx < sources.len() implies (
                #[trigger] sources[ridx]).0 != node as int by {
                    assert(tmap0.dom().contains(sources[ridx].0));
                }
                assert forall|ridx: int| 0 <= ridx < sources.len() implies {
                    let (j, pi) = #[trigger] sources[ridx];
                    &&& tmap.dom().contains(j)
                    &&& desc.nodes@[j].mesh is Some
                    &&& 0 <= pi
                        < desc.meshes@[desc.nodes@[j].mesh.unwrap() as int].primitives@.len()
                    &&& spec_record_matches(
                        *desc,
                        buffer_contents.deep_view(),
                        render_datas@[ridx],
                        j,
                        pi,
                        tmap[j],
                        bind_groups@,
                    )
                } by {
                    let (j, pi) = sources[ridx];
                    assert(tmap0.dom().contains(j));
                    assert(j != node as int);
                    assert(tmap[j] == tmap0[j]);
                    let rec = render_datas@[ridx];
                    assert(bind_groups@[rec.material_bind_group_id as int]
                        == groups0[rec.material_bind_group_id as int]);
                }
            }
            match desc.nodes[node].mesh {
                None => {},
                Some(mi) => {
                    let prim_count = desc.meshes[mi].primitives.len();
                    let mut pi: usize = 0;
                    while pi < prim_count
                        invariant
                            pi <= prim_count,
                            e < n,
                            n == order@.len(),
                            spec_scene_valid(*desc),
                            spec_order_good(*desc, order@),
                            node == order@[e as int].0,
                            node < desc.nodes@.len(),
                            desc.nodes@[node as int].mesh == Some(mi),
                            mi < desc.meshes@.len(),
                            prim_count == desc.meshes@[mi as int].primitives@.len(),
                            cache@.len() == desc.views@.len(),
                            spec_cache_slots_ok(cache@, desc.views@, buffer_contents.deep_view()),
                            tmap.dom().contains(node as int),
                            tmap[node as int] == tgid as int,
                            forall|j: int|
                                #[trigger] tmap.dom().contains(j) <==> spec_in_prefix(
                                    order@,
                                    e + 1,
                                    j,
                                ),
                            forall|e2: int|
                                0 <= e2 < e + 1 ==> {
                                    let j = (#[trigger] order@[e2]).0 as int;
                                    &&& tmap.dom().contains(j)
                                    &&& 0 <= tmap[j] < bind_groups@.len()
                                    &&& bind_groups@[tmap[j]].is_transform()
                                    &&& bind_groups@[tmap[j]].spec_factors() == spec_factors_view(
                                        order@[e2].1@,
                                    )
                                },
                            forall|j1: int, j2: int|
                                tmap.dom().contains(j1) && tmap.dom().contains(j2) && j1 != j2
                                    ==> #[trigger] tmap[j1] != #[trigger] tmap[j2],
                            forall|j: int|
                                #[trigger] tmap.dom().contains(j) ==> 0 <= tmap[j]
                                    < bind_groups@.len(),
                            sources.len() == render_datas@.len(),
                            forall|ridx: int|
                                0 <= ridx < sources.len() ==> {
                                    let (j, p2) = #[trigger] sources[ridx];
                                    &&& tmap.dom().contains(j)
                                    &&& desc.nodes@[j].mesh is Some
                                    &&& 0 <= p2
                                        < desc.meshes@[desc.nodes@[j].mesh.unwrap() as int].primitives@.len()
                                    &&& spec_record_matches(
                                        *desc,
                                        buffer_contents.deep_view(),
                                        render_datas@[ridx],
                                        j,
                                        p2,
                                        tmap[j],
                                        bind_groups@,
                                    )
                                },
                            forall|r1: int, r2: int|
                                0 <= r1 < r2 < sources.len() ==> (#[trigger] sources[r1]) != (
                                #[trigger] sources[r2]),
                            forall|e2: int|
                                0 <= e2 < e ==> spec_node_complete(
                                    *desc,
                                    sources,
                                    (#[trigger] order@[e2]).0 as int,
                                ),
                            forall|p2: int|
                                0 <= p2 < pi ==> #[trigger] spec_rec_exists(
                                    sources,
                                    node as int,
                                    p2,
                                ),
                            forall|ridx: int|
                                0 <= ridx < sources.len() && (#[trigger] sources[ridx]).0
                                    == node as int ==> sources[ridx].1 < pi,
                        decreases prim_count - pi,
                    {
                        let ghost groups1 = bind_groups@;
                        let ghost sources1 = sources;
                        let prim = &desc.meshes[mi].primitives[pi];
                        proof {
                            assert(crate::validate::spec_meshes_in_range(*desc));
                            assert(crate::validate::spec_materials_in_range(*desc));
                        }
                        let group = crate::material::resolve_material(
                            &desc.materials,
                            &prim.material,
                        );
                        let mgid = bind_groups.len();
                        bind_groups.push(BindGroupPlan::Material { group });
                        let parts = match process_primitive(
                            desc,
                            prim,
                            buffer_contents,
                            &mut cache,
                        ) {
                            Ok(p) => p,
                            Err(err) => {
                                proof {
                                    lemma_entry_reachable(*desc, order@, e as int);
                                    assert(err != LoadError::MalformedScene);
                                    assert(spec_reachable_defect(
                                        *desc,
                                        buffer_contents.deep_view(),
                                        err,
                                    )) by {
                                        assert(node < desc.nodes@.len() && spec_reachable(
                                            *desc,
                                            node,
                                        ) && desc.nodes@[node as int].mesh is Some && 0 <= (
                                        pi as int) && (pi as int)
                                            < desc.meshes@[desc.nodes@[node as int].mesh.unwrap() as int].primitives@.len()
                                            && spec_prim_error(
                                            *desc,
                                            desc.meshes@[desc.nodes@[node as int].mesh.unwrap() as int].primitives@[pi as int],
                                            buffer_contents.deep_view(),
                                            err,
                                        ));
                                    }
                                }
                                return Err(err);
                            },
                        };
                        let (layouts, used_views, draw_count, index_data) = parts;
                        let ghost recs1 = render_datas@;
                        render_datas.push(
                            PrimitiveRenderData {
                                layouts,
                                used_views,
                                draw_count,
                                index_data,
                                transform_bind_group_id: tgid,
                                material_bind_group_id: mgid,
                            },
                        );
                        proof {
                            sources = sources.push((node as int, pi as int));
                            // Old records keep matching: the new group
                            // was appended after every id they hold.
                            assert forall|e2: int| 0 <= e2 < e + 1 implies {
                                let j = (#[trigger] order@[e2]).0 as int;
                                &&& tmap.dom().contains(j)
                                &&& 0 <= tmap[j] < bind_groups@.len()
                                &&& bind_groups@[tmap[j]].is_transform()
                                &&& bind_groups@[tmap[j]].spec_factors() == spec_factors_view(
                                    order@[e2].1@,
                                )
                            } by {
                                let j = order@[e2].0 as int;
                                assert(bind_groups@[tmap[j]] == groups1[tmap[j]]);
                            }
                            assert forall|ridx: int| 0 <= ridx < sources.len() implies {
                                let (j, p2) = #[trigger] sources[ridx];
                                &&& tmap.dom().contains(j)
                                &&& desc.nodes@[j].mesh is Some
                                &&& 0 <= p2
                                    < desc.meshes@[desc.nodes@[j].mesh.unwrap() as int].primitives@.len()
                                &&& spec_record_matches(
                                    *desc,
                                    buffer_contents.deep_view(),
                                    render_datas@[ridx],
                                    j,
                                    p2,
                                    tmap[j],
                                    bind_groups@,
                                )
                            } by {
                                if ridx < sources1.len() {
                                    assert(sources[ridx] == sources1[ridx]);
                                    assert(render_datas@[ridx] == recs1[ridx]);
                                    let (j, p2) = sources1[ridx];
                                    let rec = render_datas@[ridx];
                                    assert(bind_groups@[rec.material_bind_group_id as int]
                                        == groups1[rec.material_bind_group_id as int]);
                                } else {
                                    assert(sources[ridx] == (node as int, pi as int));
                                    assert(render_datas@[ridx] == render_datas@.last());
                                    assert(bind_groups@[mgid as int].spec_material()
                                        == spec_resolve_material(
                                        desc.materials@,
                                        desc.meshes@[mi as int].primitives@[pi as int].material,
                                    ));
                                }
                            }
                            assert forall|r1: int, r2: int|
                                0 <= r1 < r2 < sources.len() implies (#[trigger] sources[r1]) != (
                            #[trigger] sources[r2]) by {
                                if r2 < sources1.len() {
                                    assert(sources[r1] == sources1[r1]);
                                    assert(sources[r2] == sources1[r2]);
                                } else {
                                    assert(sources[r2] == (node as int, pi as int));
                                    assert(sources[r1] == sources1[r1]);
                                    // Records of this node so far carry
                                    // earlier primitives.
                                    assert(sources1[r1].0 == node as int ==> sources1[r1].1
                                        < pi as int);
                                }
                            }
                            assert forall|ridx: int|
                                0 <= ridx < sources.len() && (#[trigger] sources[ridx]).0
                                    == node as int implies sources[ridx].1 < pi + 1 by {
                                if ridx < sources1.len() {
                                    assert(sources[ridx] == sources1[ridx]);
                                }
                            }
                            assert forall|p2: int|
                                0 <= p2 < pi + 1 implies #[trigger] spec_rec_exists(
                                sources,
                                node as int,
                                p2,
                            ) by {
                                if p2 < pi {
                                    assert(spec_rec_exists(sources1, node as int, p2));
                                    let wr = choose|ridx: int|
                                        0 <= ridx < sources1.len() && (#[trigger] sources1[ridx])
                                            == (node as int, p2);
                                    assert(sources[wr] == sources1[wr]);
                                } else {
                                    assert(sources[sources.len() - 1] == (node as int, p2));
                                }
                            }
                            assert forall|e2: int|
                                0 <= e2 < e implies spec_node_complete(
                                *desc,
                                sources,
                                (#[trigger] order@[e2]).0 as int,
                            ) by {
                                let j2 = order@[e2].0 as int;
                                assert(spec_node_complete(*desc, sources1, j2));
                                if desc.nodes@[j2].mesh is Some {
                                    assert forall|p2: int|
                                        0 <= p2
                                            < desc.meshes@[desc.nodes@[j2].mesh.unwrap() as int].primitives@.len() implies
                                        #[trigger] spec_rec_exists(sources, j2, p2) by {
                                        assert(spec_rec_exists(sources1, j2, p2));
                                        lemma_rec_exists_push(
                                            sources1,
                                            (node as int, pi as int),
                                            j2,
                                            p2,
                                        );
                                    }
                                }
                            }
                        }
                        pi = pi + 1;
                    }
                },
            }
            proof {
                // Completeness extends to this node: every primitive
                // of its mesh, if any, now has a record.
                assert forall|e2: int|
                    0 <= e2 < e + 1 implies spec_node_complete(
                    *desc,
                    sources,
                    (#[trigger] order@[e2]).0 as int,
                ) by {
                    if e2 == e {
                        assert(order@[e2].0 == node);
                    }
                }
            }
            e = e + 1;
        }
        let scene = Scene {
            render_datas,
            bind_groups,
            buffers: cache,
            pipeline_lists: Vec::<(String, PipelineData)>::new(),
            next_pipeline_id: 0,
            node_transform: Ghost(tmap),
            record_source: Ghost(sources),
        };
        let node_count = desc.nodes.len();
        proof {
            lemma_build_post(*desc, buffer_contents.deep_view(), scene, order@);
        }
        Ok(scene)
    }
}

/// Ties the loop facts of the build to its public contract: the
/// visited set is exactly the reachable set, transform factors obey
/// the parent/child law, and every record is well formed.
proof fn lemma_build_post(
    desc: SceneDesc,
    buffers: Seq<Seq<u8>>,
    scene: Scene,
    order: Seq<VisitEntry>,
)
    requires
        spec_scene_valid(desc),
        spec_order_good(desc, order),
        desc.nodes@.len() <= usize::MAX,
        scene.pipeline_lists@.len() == 0,
        scene.next_pipeline_id == 0,
        forall|j: int|
            #[trigger] scene.node_transform@.dom().contains(j) <==> spec_in_prefix(
                order,
                order.len() as int,
                j,
            ),
        forall|e2: int|
            0 <= e2 < order.len() ==> {
                let j = (#[trigger] order[e2]).0 as int;
                &&& scene.node_transform@.dom().contains(j)
                &&& 0 <= scene.node_transform@[j] < scene.bind_groups@.len()
                &&& scene.bind_groups@[scene.node_transform@[j]].is_transform()
                &&& scene.bind_groups@[scene.node_transform@[j]].spec_factors()
                    == spec_factors_view(order[e2].1@)
            },
        forall|j1: int, j2: int|
            scene.node_transform@.dom().contains(j1) && scene.node_transform@.dom().contains(j2)
                && j1 != j2 ==> #[trigger] scene.node_transform@[j1]
                != #[trigger] scene.node_transform@[j2],
        forall|j: int|
            #[trigger] scene.node_transform@.dom().contains(j) ==> 0 <= scene.node_transform@[j]
                < scene.bind_groups@.len(),
        scene.record_source@.len() == scene.render_datas@.len(),
        forall|ridx: int|
            0 <= ridx < scene.record_source@.len() ==> {
                let (j, pi) = #[trigger] scene.record_source@[ridx];
                &&& scene.node_transform@.dom().contains(j)
                &&& desc.nodes@[j].mesh is Some
                &&& 0 <= pi < desc.meshes@[desc.nodes@[j].mesh.unwrap() as int].primitives@.len()
                &&& spec_record_matches(
                    desc,
                    buffers,
                    scene.render_datas@[ridx],
                    j,
                    pi,
                    scene.node_transform@[j],
                    scene.bind_groups@,
                )
            },
        forall|e2: int|
            0 <= e2 < order.len() ==> spec_node_complete(
                desc,
                scene.record_source@,
                (#[trigger] order[e2]).0 as int,
            ),
    ensures
        scene.wf(),
        forall|j: int|
            #[trigger] scene.node_transform@.dom().contains(j) <==> (0 <= j < desc.nodes@.len()
                && spec_reachable(desc, j as usize)),
        forall|ri: int|
            0 <= ri < desc.roots@.len() ==> {
                let j = (#[trigger] desc.roots@[ri]) as int;
                &&& scene.node_transform@.dom().contains(j)
                &&& scene.bind_groups@[scene.node_transform@[j]].spec_factors() == seq![
                    desc.nodes@[j].local_transform@,
                ]
            },
        forall|j: int, k: int|
            #![trigger scene.node_transform@[j], desc.nodes@[j].children@[k]]
            scene.node_transform@.dom().contains(j) && 0 <= k < desc.nodes@[j].children@.len()
                ==> {
                let c = desc.nodes@[j].children@[k] as int;
                &&& scene.node_transform@.dom().contains(c)
                &&& scene.bind_groups@[scene.node_transform@[c]].spec_factors()
                    == scene.bind_groups@[scene.node_transform@[j]].spec_factors().push(
                    desc.nodes@[c].local_transform@,
                )
            },
        forall|j: int, pi: int|
            #![trigger scene.node_transform@[j], desc.meshes@[desc.nodes@[j].mesh.unwrap() as int].primitives@[pi]]
            scene.node_transform@.dom().contains(j) && desc.nodes@[j].mesh is Some && 0 <= pi
                < desc.meshes@[desc.nodes@[j].mesh.unwrap() as int].primitives@.len()
                ==> spec_rec_exists(scene.record_source@, j, pi),
{
    let m = scene.node_transform@;
    // Visited exactly means reachable.
    assert forall|j: int| #[trigger] m.dom().contains(j) implies (0 <= j < desc.nodes@.len()
        && spec_reachable(desc, j as usize)) by {
        let we = choose|e2: int|
            0 <= e2 < order.len() && (#[trigger] order[e2]).0 == j;
        assert(crate::traverse::spec_order_entry_ok(desc, order, we));
        lemma_entry_reachable(desc, order, we);
    }
    assert forall|j: int| 0 <= j < desc.nodes@.len() && spec_reachable(
        desc,
        j as usize,
    ) implies #[trigger] m.dom().contains(j) by {
        let path = choose|path: Seq<usize>|
            #[trigger] spec_path_ok_at(desc, path, j as usize);
        assert(spec_path_ok_at(desc, path, j as usize)) by {
            let p2 = choose|p2: Seq<usize>|
                #[trigger] crate::traverse::spec_path_ok(desc, p2) && p2.last() == j as usize;
            assert(spec_path_ok_at(desc, p2, j as usize));
        }
        lemma_path_in_order(desc, order, path, path.len() - 1);
        assert(spec_in_entries(order, j as usize));
        let we = choose|e2: int|
            0 <= e2 < order.len() && (#[trigger] order[e2]).0 == j as usize;
        assert(order[we].0 == j as usize);
        assert(order[we].0 as int == j);
        assert(spec_in_prefix(order, order.len() as int, j)) by {
            assert(0 <= we < order.len() && (order[we]).0 as int == j);
        }
    }
    // A root's factor list is its own local transform.
    assert forall|ri: int| 0 <= ri < desc.roots@.len() implies {
        let j = (#[trigger] desc.roots@[ri]) as int;
        &&& m.dom().contains(j)
        &&& scene.bind_groups@[m[j]].spec_factors() == seq![desc.nodes@[j].local_transform@]
    } by {
        let j = desc.roots@[ri];
        assert(spec_in_entries(order, j));
        let we = choose|e2: int| 0 <= e2 < order.len() && (#[trigger] order[e2]).0 == j;
        assert(spec_in_prefix(order, order.len() as int, j as int));
        assert(crate::traverse::spec_order_entry_ok(desc, order, we));
        assert(spec_is_root(desc, j)) by {
            assert(desc.roots@[ri] == j);
        }
        if !(spec_is_root(desc, j) && spec_factors_view(order[we].1@) == seq![
            desc.nodes@[j as int].local_transform@,
        ]) {
            let (e4, k4) = choose|e4: int, k4: int|
                #![trigger desc.nodes@[order[e4].0 as int].children@[k4]]
                0 <= e4 < we && 0 <= k4 < desc.nodes@[order[e4].0 as int].children@.len()
                    && desc.nodes@[order[e4].0 as int].children@[k4] == j && spec_factors_view(
                    order[we].1@,
                ) == spec_factors_view(order[e4].1@).push(desc.nodes@[j as int].local_transform@);
            assert(desc.roots@[ri] != desc.nodes@[order[e4].0 as int].children@[k4]);
            assert(false);
        }
    }
    // A child's factor list extends its parent's.
    assert forall|j: int, k: int|
        #![trigger m[j], desc.nodes@[j].children@[k]]
        m.dom().contains(j) && 0 <= k < desc.nodes@[j].children@.len() implies {
        let c = desc.nodes@[j].children@[k] as int;
        &&& m.dom().contains(c)
        &&& scene.bind_groups@[m[c]].spec_factors() == scene.bind_groups@[m[j]].spec_factors().push(
            desc.nodes@[c].local_transform@,
        )
    } by {
        let we = choose|e2: int| 0 <= e2 < order.len() && (#[trigger] order[e2]).0 == j;
        let c = desc.nodes@[j].children@[k];
        assert(desc.nodes@[order[we].0 as int].children@[k] == c);
        assert(spec_in_entries(order, c));
        let wc = choose|e3: int| 0 <= e3 < order.len() && (#[trigger] order[e3]).0 == c;
        assert(spec_in_prefix(order, order.len() as int, c as int));
        assert(m.dom().contains(c as int));
        assert(crate::traverse::spec_order_entry_ok(desc, order, wc));
        if spec_is_root(desc, c) && spec_factors_view(order[wc].1@) == seq![
            desc.nodes@[c as int].local_transform@,
        ] {
            let wa = choose|a: int|
                0 <= a < desc.roots@.len() && (#[trigger] desc.roots@[a]) == c;
            assert(desc.roots@[wa] != desc.nodes@[j].children@[k]);
            assert(false);
        } else {
            let (e4, k4) = choose|e4: int, k4: int|
                #![trigger desc.nodes@[order[e4].0 as int].children@[k4]]
                0 <= e4 < wc && 0 <= k4 < desc.nodes@[order[e4].0 as int].children@.len()
                    && desc.nodes@[order[e4].0 as int].children@[k4] == c && spec_factors_view(
                    order[wc].1@,
                ) == spec_factors_view(order[e4].1@).push(desc.nodes@[c as int].local_transform@);
            // The child occurs once, so its recorded parent is node j.
            assert(order[e4].0 as int == j) by {
                if order[e4].0 as int != j {
                    assert(desc.nodes@[order[e4].0 as int].children@[k4]
                        != desc.nodes@[j].children@[k]);
                }
            }
            assert(e4 == we) by {
                if e4 != we {
                    assert(order[e4].0 != order[we].0);
                }
            }
        }
    }
    // Every record is well formed against the binding table.
    assert forall|ridx: int|
        0 <= ridx < scene.render_datas@.len() implies (#[trigger] scene.render_datas@[ridx]).wf(
        scene.bind_groups@,
    ) by {
        let (j, pi) = scene.record_source@[ridx];
        let prim = desc.meshes@[desc.nodes@[j].mesh.unwrap() as int].primitives@[pi];
        lemma_streams_len(desc, prim.attributes@);
        assert(spec_layouts_view(scene.render_datas@[ridx].layouts@).len()
            == scene.render_datas@[ridx].layouts@.len());
        assert(m.dom().contains(j));
        let we = choose|e2: int| 0 <= e2 < order.len() && (#[trigger] order[e2]).0 == j;
        assert(scene.bind_groups@[m[order[we].0 as int]].is_transform());
    }
    // Every primitive of every visited node has a record.
    assert forall|j: int, pi: int|
        #![trigger m[j], desc.meshes@[desc.nodes@[j].mesh.unwrap() as int].primitives@[pi]]
        m.dom().contains(j) && desc.nodes@[j].mesh is Some && 0 <= pi
            < desc.meshes@[desc.nodes@[j].mesh.unwrap() as int].primitives@.len() implies
        spec_rec_exists(scene.record_source@, j, pi) by {
        let we = choose|e2: int| 0 <= e2 < order.len() && (#[trigger] order[e2]).0 == j;
        assert(spec_node_complete(desc, scene.record_source@, order[we].0 as int));
    }
}

/// A root path ending at `j`.
pub open spec fn spec_path_ok_at(desc: SceneDesc, path: Seq<usize>, j: usize) -> bool {
    crate::traverse::spec_path_ok(desc, path) && path.last() == j
}

} // verus!
