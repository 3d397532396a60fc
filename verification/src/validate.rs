//! Validation of a scene description.
//!
//! The builder accepts any description and rejects a malformed one
//! before it walks anything.  A description is valid when every index
//! is in range and the node arena is a forest: no node index occurs
//! twice among the roots and the children lists combined, so every
//! node has at most one parent and no reachable cycle exists.

use vstd::prelude::*;
use vstd::pervasive::VecAdditionalExecFns;
use crate::desc::SceneDesc;

verus! {

/// Every root names an existing node.
pub open spec fn spec_roots_in_range(desc: SceneDesc) -> bool {
    forall|a: int| 0 <= a < desc.roots@.len() ==> (#[trigger] desc.roots@[a]) < desc.nodes@.len()
}

/// Every node's children, mesh reference and transform are in shape.
pub open spec fn spec_nodes_in_range(desc: SceneDesc) -> bool {
    forall|i: int|
        0 <= i < desc.nodes@.len() ==> {
            let node = #[trigger] desc.nodes@[i];
            &&& forall|k: int|
                0 <= k < node.children@.len() ==> (#[trigger] node.children@[k])
                    < desc.nodes@.len()
            &&& match node.mesh {
                Some(m) => m < desc.meshes@.len(),
                None => true,
            }
            &&& node.local_transform.wf()
        }
}

/// Every primitive's accessor, index and material references are in
/// range.
pub open spec fn spec_meshes_in_range(desc: SceneDesc) -> bool {
    forall|m: int, pi: int|
        0 <= m < desc.meshes@.len() && 0 <= pi < desc.meshes@[m].primitives@.len() ==> {
            let prim = #[trigger] desc.meshes@[m].primitives@[pi];
            &&& forall|a: int|
                0 <= a < prim.attributes@.len() ==> (#[trigger] prim.attributes@[a]).1
                    < desc.accessors@.len()
            &&& match prim.indices {
                Some(ix) => ix < desc.accessors@.len(),
                None => true,
            }
            &&& match prim.material {
                Some(mt) => mt < desc.materials@.len(),
                None => true,
            }
        }
}

/// Every accessor's view reference is in range.
pub open spec fn spec_accessors_in_range(desc: SceneDesc) -> bool {
    forall|a: int|
        0 <= a < desc.accessors@.len() ==> match (#[trigger] desc.accessors@[a]).view {
            Some(v) => v < desc.views@.len(),
            None => true,
        }
}

/// Every material's texture references name a decoded image.
pub open spec fn spec_materials_in_range(desc: SceneDesc) -> bool {
    forall|mt: int|
        0 <= mt < desc.materials@.len() ==> {
            let mat = #[trigger] desc.materials@[mt];
            &&& match mat.base_color_texture {
                Some(img) => img < desc.image_count,
                None => true,
            }
            &&& match mat.metallic_roughness_texture {
                Some(img) => img < desc.image_count,
                None => true,
            }
            &&& match mat.normal_texture {
                Some(img) => img < desc.image_count,
                None => true,
            }
        }
}

/// The roots list holds no node twice.
pub open spec fn spec_roots_distinct(desc: SceneDesc) -> bool {
    forall|a: int, b: int|
        0 <= a < b < desc.roots@.len() ==> (#[trigger] desc.roots@[a]) != (
        #[trigger] desc.roots@[b])
}

/// No root also occurs as somebody's child.
pub open spec fn spec_roots_not_children(desc: SceneDesc) -> bool {
    forall|ri: int, p: int, k: int|
        0 <= ri < desc.roots@.len() && 0 <= p < desc.nodes@.len() && 0 <= k
            < desc.nodes@[p].children@.len() ==> (#[trigger] desc.roots@[ri]) != (
        #[trigger] desc.nodes@[p].children@[k])
}

/// No node occurs twice among all children lists: every node has at
/// most one parent, and a parent lists no child twice.
pub open spec fn spec_children_distinct(desc: SceneDesc) -> bool {
    forall|p: int, k: int, q: int, k2: int|
        #![trigger desc.nodes@[p].children@[k], desc.nodes@[q].children@[k2]]
        0 <= p < desc.nodes@.len() && 0 <= k < desc.nodes@[p].children@.len() && 0 <= q
            < desc.nodes@.len() && 0 <= k2 < desc.nodes@[q].children@.len() && (p != q || k != k2)
            ==> desc.nodes@[p].children@[k] != desc.nodes@[q].children@[k2]
}

/// A valid scene description: all references in range, and the node
/// arena a forest.
pub open spec fn spec_scene_valid(desc: SceneDesc) -> bool {
    &&& spec_roots_in_range(desc)
    &&& spec_nodes_in_range(desc)
    &&& spec_meshes_in_range(desc)
    &&& spec_accessors_in_range(desc)
    &&& spec_materials_in_range(desc)
    &&& spec_roots_distinct(desc)
    &&& spec_roots_not_children(desc)
    &&& spec_children_distinct(desc)
}

/// Whether node `j` occurs among the first `upto` roots.
pub open spec fn spec_root_occ_before(desc: SceneDesc, j: usize, upto: int) -> bool {
    exists|a: int| 0 <= a < upto && (#[trigger] desc.roots@[a]) == j
}

/// Whether node `j` occurs as a child at an occurrence
/// lexicographically before `(p, k)`.
pub open spec fn spec_child_occ_before(desc: SceneDesc, j: usize, p: int, k: int) -> bool {
    exists|q: int, k2: int|
        0 <= q < desc.nodes@.len() && 0 <= k2 < desc.nodes@[q].children@.len() && (q < p || (q == p
            && k2 < k)) && (#[trigger] desc.nodes@[q].children@[k2]) == j
}

/// Checks a scene description in full: returns exactly whether it is
/// valid.
pub fn validate_scene(desc: &SceneDesc) -> (r: bool)
    ensures
        r == spec_scene_valid(*desc),
{
    let n = desc.nodes.len();
    // Reference ranges.
    let mut ri: usize = 0;
    while ri < desc.roots.len()
        invariant
            ri <= desc.roots@.len(),
            forall|a: int| 0 <= a < ri ==> (#[trigger] desc.roots@[a]) < desc.nodes@.len(),
            n == desc.nodes@.len(),
        decreases desc.roots@.len() - ri,
    {
        if desc.roots[ri] >= n {
            return false;
        }
        ri = ri + 1;
    }
    let mut i: usize = 0;
    while i < n
        invariant
            i <= n,
            n == desc.nodes@.len(),
            forall|ii: int|
                0 <= ii < i ==> {
                    let node = #[trigger] desc.nodes@[ii];
                    &&& forall|k: int|
                        0 <= k < node.children@.len() ==> (#[trigger] node.children@[k])
                            < desc.nodes@.len()
                    &&& match node.mesh {
                        Some(m) => m < desc.meshes@.len(),
                        None => true,
                    }
                    &&& node.local_transform.wf()
                },
        decreases n - i,
    {
        let node = &desc.nodes[i];
        let mut k: usize = 0;
        while k < node.children.len()
            invariant
                k <= node.children@.len(),
                i < n,
                node == &desc.nodes@[i as int],
                n == desc.nodes@.len(),
                forall|kk: int| 0 <= kk < k ==> (#[trigger] node.children@[kk]) < n,
            decreases node.children@.len() - k,
        {
            if node.children[k] >= n {
                proof {
                    if spec_nodes_in_range(*desc) {
                        assert(desc.nodes@[i as int].children@[k as int] < desc.nodes@.len());
                    }
                }
                return false;
            }
            k = k + 1;
        }
        match node.mesh {
            Some(m) => {
                if m >= desc.meshes.len() {
                    return false;
                }
            },
            None => {},
        }
        if node.local_transform.words.len() != 16 {
            return false;
        }
        i = i + 1;
    }
    let mut m: usize = 0;
    while m < desc.meshes.len()
        invariant
            m <= desc.meshes@.len(),
            forall|mm: int, pi: int|
                0 <= mm < m && 0 <= pi < desc.meshes@[mm].primitives@.len() ==> {
                    let prim = #[trigger] desc.meshes@[mm].primitives@[pi];
                    &&& forall|a: int|
                        0 <= a < prim.attributes@.len() ==> (#[trigger] prim.attributes@[a]).1
                            < desc.accessors@.len()
                    &&& match prim.indices {
                        Some(ix) => ix < desc.accessors@.len(),
                        None => true,
                    }
                    &&& match prim.material {
                        Some(mt) => mt < desc.materials@.len(),
                        None => true,
                    }
                },
        decreases desc.meshes@.len() - m,
    {
        let mesh = &desc.meshes[m];
        let mut pi: usize = 0;
        while pi < mesh.primitives.len()
            invariant
                pi <= mesh.primitives@.len(),
                m < desc.meshes@.len(),
                mesh == &desc.meshes@[m as int],
                forall|pp: int|
                    0 <= pp < pi ==> {
                        let prim = #[trigger] mesh.primitives@[pp];
                        &&& forall|a: int|
                            0 <= a < prim.attributes@.len() ==> (#[trigger] prim.attributes@[a]).1
                                < desc.accessors@.len()
                        &&& match prim.indices {
                            Some(ix) => ix < desc.accessors@.len(),
                            None => true,
                        }
                        &&& match prim.material {
                            Some(mt) => mt < desc.materials@.len(),
                            None => true,
                        }
                    },
            decreases mesh.primitives@.len() - pi,
        {
            let prim = &mesh.primitives[pi];
            let mut a: usize = 0;
            while a < prim.attributes.len()
                invariant
                    a <= prim.attributes@.len(),
                    m < desc.meshes@.len(),
                    pi < desc.meshes@[m as int].primitives@.len(),
                    prim == &desc.meshes@[m as int].primitives@[pi as int],
                    forall|aa: int|
                        0 <= aa < a ==> (#[trigger] prim.attributes@[aa]).1
                            < desc.accessors@.len(),
                decreases prim.attributes@.len() - a,
            {
                if prim.attributes[a].1 >= desc.accessors.len() {
                    proof {
                        if spec_meshes_in_range(*desc) {
                            assert(desc.meshes@[m as int].primitives@[pi as int].attributes@[a as int].1
                                < desc.accessors@.len());
                        }
                    }
                    return false;
                }
                a = a + 1;
            }
            match prim.indices {
                Some(ix) => {
                    if ix >= desc.accessors.len() {
                        proof {
                            if spec_meshes_in_range(*desc) {
                                assert(match desc.meshes@[m as int].primitives@[pi as int].indices {
                                    Some(ix2) => ix2 < desc.accessors@.len(),
                                    None => true,
                                });
                            }
                        }
                        return false;
                    }
                },
                None => {},
            }
            match prim.material {
                Some(mt) => {
                    if mt >= desc.materials.len() {
                        proof {
                            if spec_meshes_in_range(*desc) {
                                assert(match desc.meshes@[m as int].primitives@[pi as int].material {
                                    Some(mt2) => mt2 < desc.materials@.len(),
                                    None => true,
                                });
                            }
                        }
                        return false;
                    }
                },
                None => {},
            }
            pi = pi + 1;
        }
        m = m + 1;
    }
    let mut a: usize = 0;
    while a < desc.accessors.len()
        invariant
            a <= desc.accessors@.len(),
            forall|aa: int|
                0 <= aa < a ==> match (#[trigger] desc.accessors@[aa]).view {
                    Some(v) => v < desc.views@.len(),
                    None => true,
                },
        decreases desc.accessors@.len() - a,
    {
        match desc.accessors[a].view {
            Some(v) => {
                if v >= desc.views.len() {
                    return false;
                }
            },
            None => {},
        }
        a = a + 1;
    }
    let mut mt: usize = 0;
    while mt < desc.materials.len()
        invariant
            mt <= desc.materials@.len(),
            forall|mm: int|
                0 <= mm < mt ==> {
                    let mat = #[trigger] desc.materials@[mm];
                    &&& match mat.base_color_texture {
                        Some(img) => img < desc.image_count,
                        None => true,
                    }
                    &&& match mat.metallic_roughness_texture {
                        Some(img) => img < desc.image_count,
                        None => true,
                    }
                    &&& match mat.normal_texture {
                        Some(img) => img < desc.image_count,
                        None => true,
                    }
                },
        decreases desc.materials@.len() - mt,
    {
        let mat = &desc.materials[mt];
        match mat.base_color_texture {
            Some(img) => {
                if img >= desc.image_count {
                    return false;
                }
            },
            None => {},
        }
        match mat.metallic_roughness_texture {
            Some(img) => {
                if img >= desc.image_count {
                    return false;
                }
            },
            None => {},
        }
        match mat.normal_texture {
            Some(img) => {
                if img >= desc.image_count {
                    return false;
                }
            },
            None => {},
        }
        mt = mt + 1;
    }
    // Forest freshness: no node occurs twice among roots and children.
    let mut seen: Vec<bool> = Vec::new();
    let mut si: usize = 0;
    while si < n
        invariant
            si <= n,
            seen@.len() == si,
            forall|j: int| 0 <= j < si ==> !(#[trigger] seen@[j]),
        decreases n - si,
    {
        seen.push(false);
        si = si + 1;
    }
    let mut ri: usize = 0;
    while ri < desc.roots.len()
        invariant
            ri <= desc.roots@.len(),
            n == desc.nodes@.len(),
            seen@.len() == n,
            spec_roots_in_range(*desc),
            forall|j: usize| j < n ==> (seen@[j as int] <==> spec_root_occ_before(*desc, j, ri as int)),
            forall|a: int, b: int|
                0 <= a < b < ri ==> (#[trigger] desc.roots@[a]) != (#[trigger] desc.roots@[b]),
        decreases desc.roots@.len() - ri,
    {
        let r = desc.roots[ri];
        if seen[r] {
            return false;
        }
        seen.set(r, true);
        proof {
            assert forall|j: usize| j < n implies (seen@[j as int] <==> spec_root_occ_before(
                *desc,
                j,
                ri + 1,
            )) by {
                if j == r {
                    assert(desc.roots@[ri as int] == j);
                } else {
                    if spec_root_occ_before(*desc, j, ri + 1) {
                        let wa = choose|a: int|
                            0 <= a < ri + 1 && (#[trigger] desc.roots@[a]) == j;
                        assert(wa < ri);
                    }
                }
            }
        }
        ri = ri + 1;
    }
    let mut p: usize = 0;
    while p < n
        invariant
            p <= n,
            n == desc.nodes@.len(),
            seen@.len() == n,
            spec_roots_in_range(*desc),
            spec_nodes_in_range(*desc),
            spec_roots_distinct(*desc),
            forall|j: usize|
                j < n ==> (seen@[j as int] <==> spec_root_occ_before(*desc, j, desc.roots@.len() as int)
                    || spec_child_occ_before(*desc, j, p as int, 0)),
            forall|ri2: int, q: int, k2: int|
                0 <= ri2 < desc.roots@.len() && 0 <= q < p && 0 <= k2
                    < desc.nodes@[q].children@.len() ==> (#[trigger] desc.roots@[ri2]) != (
                #[trigger] desc.nodes@[q].children@[k2]),
            forall|q: int, k: int, q2: int, k2: int|
                #![trigger desc.nodes@[q].children@[k], desc.nodes@[q2].children@[k2]]
                0 <= q < p && 0 <= k < desc.nodes@[q].children@.len() && 0 <= q2 < p && 0 <= k2
                    < desc.nodes@[q2].children@.len() && (q != q2 || k != k2)
                    ==> desc.nodes@[q].children@[k] != desc.nodes@[q2].children@[k2],
        decreases n - p,
    {
        let node = &desc.nodes[p];
        let mut k: usize = 0;
        while k < node.children.len()
            invariant
                k <= node.children@.len(),
                node == &desc.nodes@[p as int],
                p < n,
                n == desc.nodes@.len(),
                seen@.len() == n,
                spec_roots_in_range(*desc),
                spec_nodes_in_range(*desc),
                spec_roots_distinct(*desc),
                forall|j: usize|
                    j < n ==> (seen@[j as int] <==> spec_root_occ_before(
                        *desc,
                        j,
                        desc.roots@.len() as int,
                    ) || spec_child_occ_before(*desc, j, p as int, k as int)),
                forall|ri2: int, q: int, k2: int|
                    0 <= ri2 < desc.roots@.len() && 0 <= q < desc.nodes@.len() && 0 <= k2
                        < desc.nodes@[q].children@.len() && (q < p || (q == p && k2 < k)) ==> (
                    #[trigger] desc.roots@[ri2]) != (#[trigger] desc.nodes@[q].children@[k2]),
                forall|q: int, kk: int, q2: int, k2: int|
                    #![trigger desc.nodes@[q].children@[kk], desc.nodes@[q2].children@[k2]]
                    0 <= q < desc.nodes@.len() && 0 <= kk < desc.nodes@[q].children@.len() && 0
                        <= q2 < desc.nodes@.len() && 0 <= k2 < desc.nodes@[q2].children@.len() && (
                    q < p || (q == p && kk < k)) && (q2 < p || (q2 == p && k2 < k)) && (q != q2
                        || kk != k2) ==> desc.nodes@[q].children@[kk]
                        != desc.nodes@[q2].children@[k2],
            decreases node.children@.len() - k,
        {
            let c = node.children[k];
            if seen[c] {
                return false;
            }
            seen.set(c, true);
            proof {
                assert(desc.nodes@[p as int].children@[k as int] == c);
                assert forall|j: usize| j < n implies (seen@[j as int]
                    <==> spec_root_occ_before(*desc, j, desc.roots@.len() as int)
                    || spec_child_occ_before(*desc, j, p as int, k + 1)) by {
                    if j == c {
                        assert(spec_child_occ_before(*desc, j, p as int, k + 1));
                    } else {
                        if spec_child_occ_before(*desc, j, p as int, k + 1) {
                            let (wq, wk) = choose|q: int, k2: int|
                                0 <= q < desc.nodes@.len() && 0 <= k2
                                    < desc.nodes@[q].children@.len() && (q < p as int || (q
                                    == p as int && k2 < k + 1)) && (
                                #[trigger] desc.nodes@[q].children@[k2]) == j;
                            assert(wq < p as int || (wq == p as int && wk < k as int));
                            assert(spec_child_occ_before(*desc, j, p as int, k as int));
                        }
                    }
                }
            }
            k = k + 1;
        }
        proof {
            assert forall|j: usize| j < n implies (seen@[j as int] <==> spec_root_occ_before(
                *desc,
                j,
                desc.roots@.len() as int,
            ) || spec_child_occ_before(*desc, j, p + 1, 0)) by {
                if spec_child_occ_before(*desc, j, p as int, node.children@.len() as int) {
                    assert(spec_child_occ_before(*desc, j, p + 1, 0));
                }
                if spec_child_occ_before(*desc, j, p + 1, 0) {
                    let (wq, wk) = choose|q: int, k2: int|
                        0 <= q < desc.nodes@.len() && 0 <= k2 < desc.nodes@[q].children@.len() && (
                        q < p + 1 || (q == p + 1 && k2 < 0)) && (
                        #[trigger] desc.nodes@[q].children@[k2]) == j;
                    assert(spec_child_occ_before(*desc, j, p as int, node.children@.len() as int));
                }
            }
        }
        p = p + 1;
    }
    true
}

} // verus!
