//! The flattening traversal of the node forest.
//!
//! The builder walks the forest with an explicit work list of
//! (node, inherited factors) pairs, seeded with every root under the
//! empty factor list.  Popping a node appends it to the visit order
//! under its total factor list -- the inherited factors extended by
//! the node's own local transform -- and pushes every child under
//! that total.  Because a valid description lists every node at most
//! once among the roots and all children, each node is visited at
//! most once and the walk terminates; every root is visited, and so
//! is every child of a visited node.

use vstd::prelude::*;
use crate::desc::{MatrixData, SceneDesc};
use crate::scene::spec_factors_view;
use crate::validate::{spec_root_occ_before, spec_scene_valid};

verus! {

/// One work item or visit entry: a node and a factor list.
pub type VisitEntry = (usize, Vec<MatrixData>);

/// Whether node `j` appears in the entry list.
pub open spec fn spec_in_entries(entries: Seq<VisitEntry>, j: usize) -> bool {
    exists|e: int| 0 <= e < entries.len() && (#[trigger] entries[e]).0 == j
}

/// Whether node `j` is a root of the scene.
pub open spec fn spec_is_root(desc: SceneDesc, j: usize) -> bool {
    spec_root_occ_before(desc, j, desc.roots@.len() as int)
}

/// Whether node `j` is a child of some visited node.
pub open spec fn spec_child_of_order(desc: SceneDesc, order: Seq<VisitEntry>, j: usize) -> bool {
    exists|e: int, k: int|
        #![trigger desc.nodes@[order[e].0 as int].children@[k]]
        0 <= e < order.len() && 0 <= k < desc.nodes@[order[e].0 as int].children@.len()
            && desc.nodes@[order[e].0 as int].children@[k] == j
}

/// The account of the walk: a node is pending or visited exactly
/// when it is a root or a child of a visited node.
pub open spec fn spec_account_ok(
    desc: SceneDesc,
    order: Seq<VisitEntry>,
    stack: Seq<VisitEntry>,
    j: usize,
) -> bool {
    (spec_in_entries(stack, j) || spec_in_entries(order, j)) <==> (spec_is_root(desc, j)
        || spec_child_of_order(desc, order, j))
}

/// The account in the middle of pushing the children of the node
/// visited last: its children before position `k` already count.
pub open spec fn spec_account_mid(
    desc: SceneDesc,
    order: Seq<VisitEntry>,
    stack: Seq<VisitEntry>,
    node: usize,
    k: int,
    j: usize,
) -> bool {
    (spec_in_entries(stack, j) || spec_in_entries(order, j)) <==> (spec_is_root(desc, j)
        || spec_child_of_order(desc, order.drop_last(), j) || spec_child_before_k(
        desc,
        node,
        k,
        j,
    ))
}

/// The total factor list of a visit entry is justified: a root's
/// total is exactly its own local transform, and any other node's
/// total extends the total of an earlier-visited parent that lists it
/// as a child.
pub open spec fn spec_order_entry_ok(desc: SceneDesc, order: Seq<VisitEntry>, e: int) -> bool {
    let node = order[e].0;
    let factors = spec_factors_view(order[e].1@);
    &&& node < desc.nodes@.len()
    &&& ((spec_is_root(desc, node) && factors == seq![
        desc.nodes@[node as int].local_transform@,
    ]) || (exists|e2: int, k: int|
        #![trigger desc.nodes@[order[e2].0 as int].children@[k]]
        0 <= e2 < e && 0 <= k < desc.nodes@[order[e2].0 as int].children@.len()
            && desc.nodes@[order[e2].0 as int].children@[k] == node && factors
            == spec_factors_view(order[e2].1@).push(desc.nodes@[node as int].local_transform@)))
}

/// A work item carries the factors its node will inherit: nothing for
/// a root, a visited parent's total otherwise.
pub open spec fn spec_stack_entry_ok(
    desc: SceneDesc,
    order: Seq<VisitEntry>,
    stack: Seq<VisitEntry>,
    a: int,
) -> bool {
    let node = stack[a].0;
    let inherited = spec_factors_view(stack[a].1@);
    &&& node < desc.nodes@.len()
    &&& ((spec_is_root(desc, node) && inherited == Seq::<Seq<u32>>::empty()) || (exists|
        e: int,
        k: int,
    |
        #![trigger desc.nodes@[order[e].0 as int].children@[k]]
        0 <= e < order.len() && 0 <= k < desc.nodes@[order[e].0 as int].children@.len()
            && desc.nodes@[order[e].0 as int].children@[k] == node && inherited
            == spec_factors_view(order[e].1@)))
}

/// An identical copy of a factor list, compared by view.
pub fn copy_factors(factors: &Vec<MatrixData>) -> (r: Vec<MatrixData>)
    ensures
        spec_factors_view(r@) == spec_factors_view(factors@),
{
    let mut out: Vec<MatrixData> = Vec::new();
    let mut i: usize = 0;
    while i < factors.len()
        invariant
            i <= factors.len(),
            out@.len() == i,
            spec_factors_view(out@) == spec_factors_view(factors@).subrange(0, i as int),
        decreases factors.len() - i,
    {
        out.push(factors[i].duplicate());
        proof {
            assert(spec_factors_view(out@) =~= spec_factors_view(factors@).subrange(0, i + 1));
        }
        i = i + 1;
    }
    proof {
        assert(spec_factors_view(out@) =~= spec_factors_view(factors@));
    }
    out
}

/// Walks the forest and returns the visit order: each visited node
/// paired with its total transform factor list.  Every node is
/// visited at most once; every root is visited, every child of a
/// visited node is visited, and nothing else is.  A root's factors
/// are exactly its local transform; a child's factors are its
/// parent's factors extended by the child's local transform.
pub fn visit_order(desc: &SceneDesc) -> (order: Vec<VisitEntry>)
    requires
        spec_scene_valid(*desc),
    ensures
        forall|a: int, b: int|
            0 <= a < b < order@.len() ==> (#[trigger] order@[a]).0 != (#[trigger] order@[b]).0,
        forall|e: int| 0 <= e < order@.len() ==> spec_order_entry_ok(*desc, order@, e),
        forall|ri: int|
            0 <= ri < desc.roots@.len() ==> spec_in_entries(order@, #[trigger] desc.roots@[ri]),
        forall|e: int, k: int|
            #![trigger desc.nodes@[order@[e].0 as int].children@[k]]
            0 <= e < order@.len() && 0 <= k < desc.nodes@[order@[e].0 as int].children@.len()
                ==> spec_in_entries(order@, desc.nodes@[order@[e].0 as int].children@[k]),
        forall|e: int|
            0 <= e < order@.len() ==> spec_is_root(*desc, (#[trigger] order@[e]).0)
                || spec_child_of_order(*desc, order@, order@[e].0),
{
    let n = desc.nodes.len();
    let mut order: Vec<VisitEntry> = Vec::new();
    let mut stack: Vec<VisitEntry> = Vec::new();
    let ghost mut remaining: Set<int> = Set::new(|j: int| 0 <= j < n);
    proof {
        lemma_range_set_finite(n as int);
    }
    let mut ri: usize = 0;
    while ri < desc.roots.len()
        invariant
            ri <= desc.roots@.len(),
            n == desc.nodes@.len(),
            spec_scene_valid(*desc),
            stack@.len() == ri,
            forall|a: int|
                0 <= a < ri ==> (#[trigger] stack@[a]).0 == desc.roots@[a] && stack@[a].1@.len()
                    == 0,
        decreases desc.roots@.len() - ri,
    {
        let root = desc.roots[ri];
        stack.push((root, Vec::new()));
        ri = ri + 1;
    }
    proof {
        assert forall|a: int, b: int| 0 <= a < b < stack@.len() implies (#[trigger] stack@[a]).0
            != (#[trigger] stack@[b]).0 by {
            assert(stack@[a].0 == desc.roots@[a]);
            assert(stack@[b].0 == desc.roots@[b]);
        }
        assert forall|a: int| 0 <= a < stack@.len() implies remaining.contains(
            (#[trigger] stack@[a]).0 as int,
        ) by {
            assert(stack@[a].0 == desc.roots@[a]);
            assert(desc.roots@[a] < n);
        }
        assert forall|a: int| 0 <= a < stack@.len() implies spec_stack_entry_ok(
            *desc,
            order@,
            stack@,
            a,
        ) by {
            assert(stack@[a].0 == desc.roots@[a]);
            assert(spec_is_root(*desc, stack@[a].0));
            assert(spec_factors_view(stack@[a].1@) =~= Seq::<Seq<u32>>::empty());
        }
        assert forall|j: usize| j < n implies spec_account_ok(*desc, order@, stack@, j) by {
            if spec_in_entries(stack@, j) {
                let wa = choose|a: int| 0 <= a < stack@.len() && (#[trigger] stack@[a]).0 == j;
                assert(desc.roots@[wa] == j);
                assert(spec_is_root(*desc, j));
            }
            if spec_is_root(*desc, j) {
                let wa = choose|a: int|
                    0 <= a < desc.roots@.len() && (#[trigger] desc.roots@[a]) == j;
                assert(stack@[wa].0 == j);
                assert(spec_in_entries(stack@, j));
            }
        }
    }
    while stack.len() > 0
        invariant
            n == desc.nodes@.len(),
            spec_scene_valid(*desc),
            remaining.finite(),
            remaining.len() + order@.len() == n,
            forall|j: int|
                remaining.contains(j) <==> (0 <= j < n && !spec_in_entries(order@, j as usize)),
            forall|a: int|
                0 <= a < stack@.len() ==> remaining.contains((#[trigger] stack@[a]).0 as int),
            forall|a: int, b: int|
                0 <= a < b < stack@.len() ==> (#[trigger] stack@[a]).0 != (#[trigger] stack@[b]).0,
            forall|a: int, b: int|
                0 <= a < b < order@.len() ==> (#[trigger] order@[a]).0 != (#[trigger] order@[b]).0,
            forall|e: int| 0 <= e < order@.len() ==> spec_order_entry_ok(*desc, order@, e),
            forall|a: int|
                0 <= a < stack@.len() ==> spec_stack_entry_ok(*desc, order@, stack@, a),
            forall|j: usize| j < n ==> spec_account_ok(*desc, order@, stack@, j),
        decreases remaining.len(),
    {
        let ghost order0 = order@;
        let ghost stack0 = stack@;
        let popped = stack.pop().unwrap();
        let node = popped.0;
        let mut total = popped.1;
        let ghost a0 = stack0.len() - 1;
        proof {
            assert(stack0[a0] == popped);
            assert(spec_stack_entry_ok(*desc, order0, stack0, a0));
        }
        total.push(desc.nodes[node].local_transform.duplicate());
        proof {
            assert(spec_factors_view(total@) =~= spec_factors_view(popped.1@).push(
                desc.nodes@[node as int].local_transform@,
            ));
        }
        let total_copy = copy_factors(&total);
        order.push((node, total_copy));
        let ghost order1 = order@;
        let ghost e_node = order1.len() - 1;
        proof {
            // The new visit entry is justified by the popped work item.
            assert(order1[e_node].0 == node);
            assert(spec_factors_view(order1[e_node].1@) == spec_factors_view(popped.1@).push(
                desc.nodes@[node as int].local_transform@,
            ));
            if !spec_is_root(*desc, node) || spec_factors_view(popped.1@).len() != 0 {
                let (we, wk) = choose|e: int, k: int|
                    #![trigger desc.nodes@[order0[e].0 as int].children@[k]]
                    0 <= e < order0.len() && 0 <= k
                        < desc.nodes@[order0[e].0 as int].children@.len()
                        && desc.nodes@[order0[e].0 as int].children@[k] == node
                        && spec_factors_view(popped.1@) == spec_factors_view(order0[e].1@);
                assert(order1[we] == order0[we]);
                assert(spec_order_entry_ok(*desc, order1, e_node));
            } else {
                assert(spec_factors_view(popped.1@) =~= Seq::<Seq<u32>>::empty());
                assert(spec_factors_view(order1[e_node].1@) =~= seq![
                    desc.nodes@[node as int].local_transform@,
                ]);
                assert(spec_order_entry_ok(*desc, order1, e_node));
            }
            // Old visit entries stay justified.
            assert forall|e: int| 0 <= e < order1.len() implies spec_order_entry_ok(
                *desc,
                order1,
                e,
            ) by {
                if e < order0.len() {
                    assert(spec_order_entry_ok(*desc, order0, e));
                    assert(order1[e] == order0[e]);
                    if !(spec_is_root(*desc, order0[e].0) && spec_factors_view(order0[e].1@)
                        == seq![desc.nodes@[order0[e].0 as int].local_transform@]) {
                        let (we2, wk2) = choose|e2: int, k: int|
                            #![trigger desc.nodes@[order0[e2].0 as int].children@[k]]
                            0 <= e2 < e && 0 <= k
                                < desc.nodes@[order0[e2].0 as int].children@.len()
                                && desc.nodes@[order0[e2].0 as int].children@[k] == order0[e].0
                                && spec_factors_view(order0[e].1@) == spec_factors_view(
                                order0[e2].1@,
                            ).push(desc.nodes@[order0[e].0 as int].local_transform@);
                        assert(order1[we2] == order0[we2]);
                    }
                }
            }
            // Remaining work items stay justified: their parents are
            // still in the grown visit order.
            assert forall|a: int| 0 <= a < stack@.len() implies spec_stack_entry_ok(
                *desc,
                order1,
                stack@,
                a,
            ) by {
                assert(stack@[a] == stack0[a]);
                assert(spec_stack_entry_ok(*desc, order0, stack0, a));
                if !(spec_is_root(*desc, stack0[a].0) && spec_factors_view(stack0[a].1@)
                    == Seq::<Seq<u32>>::empty()) {
                    let (we, wk) = choose|e: int, k: int|
                        #![trigger desc.nodes@[order0[e].0 as int].children@[k]]
                        0 <= e < order0.len() && 0 <= k
                            < desc.nodes@[order0[e].0 as int].children@.len()
                            && desc.nodes@[order0[e].0 as int].children@[k] == stack0[a].0
                            && spec_factors_view(stack0[a].1@) == spec_factors_view(order0[e].1@);
                    assert(order1[we] == order0[we]);
                }
            }
            // The node leaves the unvisited set; every other slot of
            // the account is untouched.
            assert(remaining.contains(node as int));
            vstd::set::axiom_set_remove_len(remaining, node as int);
            remaining = remaining.remove(node as int);
            assert forall|j: int| remaining.contains(j) <==> (0 <= j < n && !spec_in_entries(
                order1,
                j as usize,
            )) by {
                if j == node as int {
                    assert(order1[e_node].0 == node);
                    assert(spec_in_entries(order1, node));
                } else {
                    if spec_in_entries(order1, j as usize) {
                        let we = choose|e: int|
                            0 <= e < order1.len() && (#[trigger] order1[e]).0 == j as usize;
                        if we < order0.len() {
                            assert(order1[we] == order0[we]);
                            assert(spec_in_entries(order0, j as usize));
                        } else {
                            assert(order1[we].0 == node);
                        }
                    }
                    if spec_in_entries(order0, j as usize) {
                        let we = choose|e: int|
                            0 <= e < order0.len() && (#[trigger] order0[e]).0 == j as usize;
                        assert(order1[we] == order0[we]);
                        assert(spec_in_entries(order1, j as usize));
                    }
                }
            }
            assert forall|a: int, b: int| 0 <= a < b < order1.len() implies (
            #[trigger] order1[a]).0 != (#[trigger] order1[b]).0 by {
                if b < order0.len() {
                    assert(order1[a] == order0[a]);
                    assert(order1[b] == order0[b]);
                } else {
                    assert(order1[a] == order0[a]);
                    assert(order1[b].0 == node);
                    // The node was unvisited before this step.
                    assert(!spec_in_entries(order0, node));
                    assert(spec_in_entries(order0, order0[a].0));
                }
            }
            assert forall|a: int| 0 <= a < stack@.len() implies remaining.contains(
                (#[trigger] stack@[a]).0 as int,
            ) by {
                assert(stack@[a] == stack0[a]);
                assert(stack0[a].0 != stack0[a0].0);
            }
            // Before any child is pushed, the account matches the
            // visit order without its new last entry.
            assert(order1.drop_last() =~= order0);
            assert forall|j: usize|
                j < n implies spec_account_mid(*desc, order1, stack@, node, 0, j) by {
                assert(spec_account_ok(*desc, order0, stack0, j));
                assert(spec_child_of_order(*desc, order1.drop_last(), j) == spec_child_of_order(
                    *desc,
                    order0,
                    j,
                ));
                if j == node {
                    assert(spec_in_entries(order1, node));
                    assert(spec_in_entries(stack0, node)) by {
                        assert(stack0[a0].0 == node);
                    }
                } else {
                    if spec_in_entries(stack@, j) {
                        let wa = choose|a: int|
                            0 <= a < stack@.len() && (#[trigger] stack@[a]).0 == j;
                        assert(stack@[wa] == stack0[wa]);
                        assert(spec_in_entries(stack0, j));
                    }
                    if spec_in_entries(stack0, j) {
                        let wa = choose|a: int|
                            0 <= a < stack0.len() && (#[trigger] stack0[a]).0 == j;
                        if wa < stack@.len() {
                            assert(stack@[wa] == stack0[wa]);
                            assert(spec_in_entries(stack@, j));
                        } else {
                            assert(stack0[wa].0 == node);
                        }
                    }
                    if spec_in_entries(order1, j) {
                        let we = choose|e: int|
                            0 <= e < order1.len() && (#[trigger] order1[e]).0 == j;
                        assert(we < order0.len());
                        assert(order1[we] == order0[we]);
                        assert(spec_in_entries(order0, j));
                    }
                    if spec_in_entries(order0, j) {
                        let we = choose|e: int|
                            0 <= e < order0.len() && (#[trigger] order0[e]).0 == j;
                        assert(order1[we] == order0[we]);
                        assert(spec_in_entries(order1, j));
                    }
                }
            }
        }
        // Push every child under the node's total factors.
        let child_count = desc.nodes[node].children.len();
        let mut k: usize = 0;
        while k < child_count
            invariant
                n == desc.nodes@.len(),
                spec_scene_valid(*desc),
                node < n,
                k <= child_count,
                child_count == desc.nodes@[node as int].children@.len(),
                order@ == order1,
                order1.len() >= 1,
                e_node == order1.len() - 1,
                order1[e_node].0 == node,
                spec_factors_view(total@) == spec_factors_view(order1[e_node].1@),
                remaining.finite(),
                remaining.len() + order@.len() == n,
                forall|j: int|
                    remaining.contains(j) <==> (0 <= j < n && !spec_in_entries(order@, j as usize)),
                forall|a: int|
                    0 <= a < stack@.len() ==> remaining.contains((#[trigger] stack@[a]).0 as int),
                forall|a: int, b: int|
                    0 <= a < b < stack@.len() ==> (#[trigger] stack@[a]).0 != (
                    #[trigger] stack@[b]).0,
                forall|a: int, b: int|
                    0 <= a < b < order@.len() ==> (#[trigger] order@[a]).0 != (
                    #[trigger] order@[b]).0,
                forall|e: int| 0 <= e < order@.len() ==> spec_order_entry_ok(*desc, order@, e),
                forall|a: int|
                    0 <= a < stack@.len() ==> spec_stack_entry_ok(*desc, order@, stack@, a),
                forall|j: usize|
                    j < n ==> spec_account_mid(*desc, order1, stack@, node, k as int, j),
            decreases child_count - k,
        {
            let c = desc.nodes[node].children[k];
            let ghost stack1 = stack@;
            proof {
                // The child is fresh: it is not a root, no other node
                // lists it, and this node lists it only once, so it is
                // neither visited nor pending.
                assert(desc.nodes@[node as int].children@[k as int] == c);
                assert forall|e: int| 0 <= e < order1.len() implies (#[trigger] order1[e]).0
                    < desc.nodes@.len() by {
                    assert(spec_order_entry_ok(*desc, order1, e));
                }
                lemma_child_fresh(*desc, order1, stack1, remaining, node, k as int, n as int);
            }
            stack.push((c, copy_factors(&total)));
            proof {
                assert forall|a: int| 0 <= a < stack@.len() implies spec_stack_entry_ok(
                    *desc,
                    order1,
                    stack@,
                    a,
                ) by {
                    if a < stack1.len() {
                        assert(stack@[a] == stack1[a]);
                        assert(spec_stack_entry_ok(*desc, order1, stack1, a));
                        if !(spec_is_root(*desc, stack1[a].0) && spec_factors_view(stack1[a].1@)
                            == Seq::<Seq<u32>>::empty()) {
                            let (we, wk) = choose|e: int, kk: int|
                                #![trigger desc.nodes@[order1[e].0 as int].children@[kk]]
                                0 <= e < order1.len() && 0 <= kk
                                    < desc.nodes@[order1[e].0 as int].children@.len()
                                    && desc.nodes@[order1[e].0 as int].children@[kk]
                                    == stack1[a].0 && spec_factors_view(stack1[a].1@)
                                    == spec_factors_view(order1[e].1@);
                        }
                    } else {
                        assert(stack@[a].0 == c);
                        assert(desc.nodes@[order1[e_node].0 as int].children@[k as int] == c);
                        assert(spec_factors_view(stack@[a].1@) == spec_factors_view(
                            order1[e_node].1@,
                        ));
                    }
                }
                let ghost k1: int = k + 1;
                assert forall|j: usize|
                    j < n implies spec_account_mid(*desc, order1, stack@, node, k1, j) by {
                    assert(spec_account_mid(*desc, order1, stack1, node, k as int, j));
                    lemma_membership_step(*desc, order1, stack1, stack@, node, k as int, j, c);
                }
                assert forall|a: int, b: int|
                    0 <= a < b < stack@.len() implies (#[trigger] stack@[a]).0 != (
                #[trigger] stack@[b]).0 by {
                    if b < stack1.len() {
                        assert(stack@[a] == stack1[a]);
                        assert(stack@[b] == stack1[b]);
                    } else {
                        assert(stack@[a] == stack1[a]);
                        assert(stack@[b].0 == c);
                        if stack1[a].0 == c {
                            assert(spec_in_entries(stack1, c));
                        }
                    }
                }
                assert forall|a: int| 0 <= a < stack@.len() implies remaining.contains(
                    (#[trigger] stack@[a]).0 as int,
                ) by {
                    if a < stack1.len() {
                        assert(stack@[a] == stack1[a]);
                    } else {
                        assert(stack@[a].0 == c);
                    }
                }
            }
            k = k + 1;
        }
        proof {
            // With every child pushed, the pending occurrences of this
            // node's children are exactly its child list.
            assert forall|j: usize|
                j < n implies spec_account_ok(*desc, order1, stack@, j) by {
                assert(spec_account_mid(*desc, order1, stack@, node, k as int, j));
                lemma_membership_close(*desc, order1, node, k as int, j);
            }
        }
    }
    proof {
        assert forall|ri2: int| 0 <= ri2 < desc.roots@.len() implies spec_in_entries(
            order@,
            #[trigger] desc.roots@[ri2],
        ) by {
            let j = desc.roots@[ri2];
            assert(spec_is_root(*desc, j));
            assert(j < n);
            assert(spec_account_ok(*desc, order@, stack@, j));
            assert(!spec_in_entries(stack@, j));
        }
        assert forall|e: int, k: int|
            #![trigger desc.nodes@[order@[e].0 as int].children@[k]]
            0 <= e < order@.len() && 0 <= k
                < desc.nodes@[order@[e].0 as int].children@.len() implies
            spec_in_entries(order@, desc.nodes@[order@[e].0 as int].children@[k]) by {
            assert(spec_order_entry_ok(*desc, order@, e));
            assert(order@[e].0 < n);
            assert(desc.nodes@[order@[e].0 as int].children@[k] < desc.nodes@.len());
            let j = desc.nodes@[order@[e].0 as int].children@[k];
            assert(spec_child_of_order(*desc, order@, j)) by {
                assert(0 <= e < order@.len() && 0 <= k
                    < desc.nodes@[order@[e].0 as int].children@.len()
                    && desc.nodes@[order@[e].0 as int].children@[k] == j);
            }
            assert(j < n);
            assert(spec_is_root(*desc, j) || spec_child_of_order(*desc, order@, j));
            assert(spec_account_ok(*desc, order@, stack@, j));
            assert(!spec_in_entries(stack@, j));
        }
        assert forall|e: int|
            0 <= e < order@.len() implies spec_is_root(*desc, (#[trigger] order@[e]).0)
            || spec_child_of_order(*desc, order@, order@[e].0) by {
            let j = order@[e].0;
            assert(spec_order_entry_ok(*desc, order@, e));
            assert(j < n);
            assert(spec_in_entries(order@, j));
            assert(spec_account_ok(*desc, order@, stack@, j));
        }
    }
    order
}

/// Whether node `j` occurs somewhere in `parent`'s child list.
pub open spec fn spec_in_child_list(desc: SceneDesc, parent: usize, j: usize) -> bool {
    exists|k: int|
        0 <= k < desc.nodes@[parent as int].children@.len()
            && (#[trigger] desc.nodes@[parent as int].children@[k]) == j
}

/// Whether node `j` occurs among the first `k` children of `parent`.
pub open spec fn spec_child_before_k(desc: SceneDesc, parent: usize, k: int, j: usize) -> bool {
    exists|k2: int|
        0 <= k2 < k && k2 < desc.nodes@[parent as int].children@.len()
            && (#[trigger] desc.nodes@[parent as int].children@[k2]) == j
}

/// A path through the forest: it starts at a root and every later
/// node is a child of the one before it.
pub open spec fn spec_path_ok(desc: SceneDesc, path: Seq<usize>) -> bool {
    &&& path.len() >= 1
    &&& spec_is_root(desc, path[0])
    &&& forall|t: int| 0 <= t < path.len() ==> (#[trigger] path[t]) < desc.nodes@.len()
    &&& forall|t: int|
        0 <= t < path.len() - 1 ==> #[trigger] spec_in_child_list(desc, path[t], path[t + 1])
}

/// Whether node `j` is reachable from a root of the scene.
pub open spec fn spec_reachable(desc: SceneDesc, j: usize) -> bool {
    exists|path: Seq<usize>| #[trigger] spec_path_ok(desc, path) && path.last() == j
}

/// The facts the traversal guarantees of its visit order.
pub open spec fn spec_order_good(desc: SceneDesc, order: Seq<VisitEntry>) -> bool {
    &&& forall|a: int, b: int|
        0 <= a < b < order.len() ==> (#[trigger] order[a]).0 != (#[trigger] order[b]).0
    &&& forall|e: int| 0 <= e < order.len() ==> spec_order_entry_ok(desc, order, e)
    &&& forall|ri: int|
        0 <= ri < desc.roots@.len() ==> spec_in_entries(order, #[trigger] desc.roots@[ri])
    &&& forall|e: int, k: int|
        #![trigger desc.nodes@[order[e].0 as int].children@[k]]
        0 <= e < order.len() && 0 <= k < desc.nodes@[order[e].0 as int].children@.len()
            ==> spec_in_entries(order, desc.nodes@[order[e].0 as int].children@[k])
}

/// Every visit entry's node is reachable from a root.
pub proof fn lemma_entry_reachable(desc: SceneDesc, order: Seq<VisitEntry>, e: int)
    requires
        spec_scene_valid(desc),
        forall|e2: int| 0 <= e2 < order.len() ==> spec_order_entry_ok(desc, order, e2),
        0 <= e < order.len(),
    ensures
        spec_reachable(desc, order[e].0),
    decreases e,
{
    let node = order[e].0;
    assert(spec_order_entry_ok(desc, order, e));
    if spec_is_root(desc, node) {
        let path = seq![node];
        assert(spec_path_ok(desc, path));
        assert(path.last() == node);
        assert(spec_reachable(desc, node));
    } else {
        let (e2, k) = choose|e2: int, k: int|
            #![trigger desc.nodes@[order[e2].0 as int].children@[k]]
            0 <= e2 < e && 0 <= k < desc.nodes@[order[e2].0 as int].children@.len()
                && desc.nodes@[order[e2].0 as int].children@[k] == node && spec_factors_view(
                order[e].1@,
            ) == spec_factors_view(order[e2].1@).push(desc.nodes@[node as int].local_transform@);
        lemma_entry_reachable(desc, order, e2);
        let prefix = choose|path: Seq<usize>|
            #[trigger] spec_path_ok(desc, path) && path.last() == order[e2].0;
        let path = prefix.push(node);
        assert(spec_path_ok(desc, path)) by {
            assert forall|t: int| 0 <= t < path.len() implies (#[trigger] path[t])
                < desc.nodes@.len() by {
                if t < prefix.len() {
                    assert(path[t] == prefix[t]);
                }
            }
            assert forall|t: int| 0 <= t < path.len() - 1 implies #[trigger] spec_in_child_list(
                desc,
                path[t],
                path[t + 1],
            ) by {
                if t < prefix.len() - 1 {
                    assert(path[t] == prefix[t]);
                    assert(path[t + 1] == prefix[t + 1]);
                } else {
                    assert(path[t] == prefix.last());
                    assert(path[t + 1] == node);
                    assert(desc.nodes@[prefix.last() as int].children@[k] == node);
                }
            }
            assert(path[0] == prefix[0]);
        }
        assert(path.last() == node);
        assert(spec_reachable(desc, node));
    }
}

/// Every node of a root path is visited.
pub proof fn lemma_path_in_order(
    desc: SceneDesc,
    order: Seq<VisitEntry>,
    path: Seq<usize>,
    t: int,
)
    requires
        spec_scene_valid(desc),
        spec_order_good(desc, order),
        spec_path_ok(desc, path),
        0 <= t < path.len(),
    ensures
        spec_in_entries(order, path[t]),
    decreases t,
{
    if t == 0 {
        let wa = choose|a: int|
            0 <= a < desc.roots@.len() && (#[trigger] desc.roots@[a]) == path[0];
        assert(spec_in_entries(order, desc.roots@[wa]));
    } else {
        lemma_path_in_order(desc, order, path, t - 1);
        let we = choose|e: int| 0 <= e < order.len() && (#[trigger] order[e]).0 == path[t - 1];
        assert(spec_in_child_list(desc, path[t - 1], path[t - 1 + 1]));
        assert(spec_in_child_list(desc, path[t - 1], path[t]));
        let wk = choose|k: int|
            0 <= k < desc.nodes@[path[t - 1] as int].children@.len()
                && (#[trigger] desc.nodes@[path[t - 1] as int].children@[k]) == path[t];
        assert(desc.nodes@[order[we].0 as int].children@[wk] == path[t]);
        assert(spec_in_entries(order, desc.nodes@[order[we].0 as int].children@[wk]));
    }
}

/// The set of integers below `n` is finite and has `n` elements.
proof fn lemma_range_set_finite(n: int)
    requires
        n >= 0,
    ensures
        Set::new(|j: int| 0 <= j < n).finite(),
        Set::new(|j: int| 0 <= j < n).len() == n,
    decreases n,
{
    if n == 0 {
        assert(Set::new(|j: int| 0 <= j < 0) =~= Set::<int>::empty());
    } else {
        lemma_range_set_finite(n - 1);
        assert(Set::new(|j: int| 0 <= j < n) =~= Set::new(|j: int| 0 <= j < n - 1).insert(n - 1));
    }
}

/// A child about to be pushed is neither visited nor pending.
proof fn lemma_child_fresh(
    desc: SceneDesc,
    order: Seq<VisitEntry>,
    stack: Seq<VisitEntry>,
    remaining: Set<int>,
    node: usize,
    k: int,
    n: int,
)
    requires
        spec_scene_valid(desc),
        n == desc.nodes@.len(),
        node < n,
        order.len() >= 1,
        order[order.len() - 1].0 == node,
        0 <= k < desc.nodes@[node as int].children@.len(),
        forall|j: int|
            remaining.contains(j) <==> (0 <= j < n && !spec_in_entries(order, j as usize)),
        forall|a: int, b: int|
            0 <= a < b < order.len() ==> (#[trigger] order[a]).0 != (#[trigger] order[b]).0,
        forall|e: int| 0 <= e < order.len() ==> (#[trigger] order[e]).0 < desc.nodes@.len(),
        forall|j: usize| j < n ==> spec_account_mid(desc, order, stack, node, k, j),
    ensures
        !spec_in_entries(stack, desc.nodes@[node as int].children@[k]),
        !spec_in_entries(order, desc.nodes@[node as int].children@[k]),
        remaining.contains(desc.nodes@[node as int].children@[k] as int),
{
    let c = desc.nodes@[node as int].children@[k];
    assert(c < n);
    assert(spec_account_mid(desc, order, stack, node, k, c));
    if spec_in_entries(stack, c) || spec_in_entries(order, c) {
        if spec_is_root(desc, c) {
            let wa = choose|a: int| 0 <= a < desc.roots@.len() && (#[trigger] desc.roots@[a]) == c;
            assert(desc.roots@[wa] != desc.nodes@[node as int].children@[k]);
            assert(false);
        } else if spec_child_of_order(desc, order.drop_last(), c) {
            let (we, wk) = choose|e: int, k2: int|
                #![trigger desc.nodes@[order.drop_last()[e].0 as int].children@[k2]]
                0 <= e < order.drop_last().len() && 0 <= k2
                    < desc.nodes@[order.drop_last()[e].0 as int].children@.len()
                    && desc.nodes@[order.drop_last()[e].0 as int].children@[k2] == c;
            let p = order.drop_last()[we].0;
            // Another visited node would have to list the same child.
            if p as int == node as int {
                // The parent appears twice in the visit order.
                assert(order[we].0 == order[order.len() - 1].0);
                assert(false);
            } else {
                assert(desc.nodes@[p as int].children@[wk]
                    != desc.nodes@[node as int].children@[k]);
                assert(false);
            }
        } else {
            let wk = choose|k2: int|
                0 <= k2 < k && k2 < desc.nodes@[node as int].children@.len()
                    && (#[trigger] desc.nodes@[node as int].children@[k2]) == c;
            assert(desc.nodes@[node as int].children@[wk]
                != desc.nodes@[node as int].children@[k]);
            assert(false);
        }
    }
}

/// One push step preserves the membership account.
proof fn lemma_membership_step(
    desc: SceneDesc,
    order: Seq<VisitEntry>,
    stack_before: Seq<VisitEntry>,
    stack_after: Seq<VisitEntry>,
    node: usize,
    k: int,
    j: usize,
    c: usize,
)
    requires
        spec_scene_valid(desc),
        node < desc.nodes@.len(),
        order.len() >= 1,
        order[order.len() - 1].0 == node,
        0 <= k < desc.nodes@[node as int].children@.len(),
        c == desc.nodes@[node as int].children@[k],
        stack_after.len() == stack_before.len() + 1,
        stack_after =~= stack_before.push(stack_after[stack_after.len() - 1]),
        stack_after[stack_after.len() - 1].0 == c,
        j < desc.nodes@.len(),
        spec_account_mid(desc, order, stack_before, node, k, j),
    ensures
        spec_account_mid(desc, order, stack_after, node, k + 1, j),
{
    if j == c {
        assert(spec_in_entries(stack_after, j)) by {
            assert(stack_after[stack_after.len() - 1].0 == j);
        }
        assert(spec_child_before_k(desc, node, k + 1, j)) by {
            assert(desc.nodes@[node as int].children@[k] == j);
        }
    } else {
        // Membership in the grown stack is membership in the old one.
        if spec_in_entries(stack_after, j) {
            let wa = choose|a: int|
                0 <= a < stack_after.len() && (#[trigger] stack_after[a]).0 == j;
            assert(wa < stack_before.len());
            assert(stack_after[wa] == stack_before[wa]);
            assert(spec_in_entries(stack_before, j));
        }
        if spec_in_entries(stack_before, j) {
            let wa = choose|a: int|
                0 <= a < stack_before.len() && (#[trigger] stack_before[a]).0 == j;
            assert(stack_after[wa] == stack_before[wa]);
            assert(spec_in_entries(stack_after, j));
        }
        // A child position below k + 1 that is not k is below k.
        if spec_child_before_k(desc, node, k + 1, j) {
            let wk = choose|k2: int|
                0 <= k2 < k + 1 && k2 < desc.nodes@[node as int].children@.len()
                    && (#[trigger] desc.nodes@[node as int].children@[k2]) == j;
            if wk == k {
                assert(j == c);
                assert(false);
            } else {
                assert(spec_child_before_k(desc, node, k, j));
            }
        }
        if spec_child_before_k(desc, node, k, j) {
            let wk = choose|k2: int|
                0 <= k2 < k && k2 < desc.nodes@[node as int].children@.len()
                    && (#[trigger] desc.nodes@[node as int].children@[k2]) == j;
            assert(spec_child_before_k(desc, node, k + 1, j));
        }
    }
}

/// Once every child of the last-visited node is pushed, the account
/// closes over the full visit order.
proof fn lemma_membership_close(
    desc: SceneDesc,
    order: Seq<VisitEntry>,
    node: usize,
    k: int,
    j: usize,
)
    requires
        spec_scene_valid(desc),
        node < desc.nodes@.len(),
        order.len() >= 1,
        order[order.len() - 1].0 == node,
        k == desc.nodes@[node as int].children@.len(),
        j < desc.nodes@.len(),
    ensures
        (spec_child_of_order(desc, order.drop_last(), j) || spec_child_before_k(desc, node, k, j))
            <==> spec_child_of_order(desc, order, j),
{
    let last = order.len() - 1;
    if spec_child_of_order(desc, order.drop_last(), j) {
        let (we, wk) = choose|e: int, k2: int|
            #![trigger desc.nodes@[order.drop_last()[e].0 as int].children@[k2]]
            0 <= e < order.drop_last().len() && 0 <= k2
                < desc.nodes@[order.drop_last()[e].0 as int].children@.len()
                && desc.nodes@[order.drop_last()[e].0 as int].children@[k2] == j;
        assert(order[we] == order.drop_last()[we]);
        assert(spec_child_of_order(desc, order, j));
    }
    if spec_child_before_k(desc, node, k, j) {
        let wk = choose|k2: int|
            0 <= k2 < k && k2 < desc.nodes@[node as int].children@.len()
                && (#[trigger] desc.nodes@[node as int].children@[k2]) == j;
        assert(order[last].0 == node);
        assert(desc.nodes@[order[last].0 as int].children@[wk] == j);
        assert(spec_child_of_order(desc, order, j));
    }
    if spec_child_of_order(desc, order, j) {
        let (we, wk) = choose|e: int, k2: int|
            #![trigger desc.nodes@[order[e].0 as int].children@[k2]]
            0 <= e < order.len() && 0 <= k2
                < desc.nodes@[order[e].0 as int].children@.len()
                && desc.nodes@[order[e].0 as int].children@[k2] == j;
        if we < last {
            assert(order.drop_last()[we] == order[we]);
            assert(spec_child_of_order(desc, order.drop_last(), j));
        } else {
            assert(order[we].0 == node);
            assert(spec_child_before_k(desc, node, k, j)) by {
                assert(desc.nodes@[node as int].children@[wk] == j);
            }
        }
    }
}

} // verus!
