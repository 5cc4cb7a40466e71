//! What holds of the scene across several operations.
use vstd::prelude::*;
use crate::math::matrix::{is_product, Arithmetic, Matrix, IDENTITY};
use crate::scene::{Scene, SceneView};
use crate::scene::drawable::{lemma_room, pooled, synced, with_node, without_node, DrawableView};
use crate::scene::hierarchy::{
    attached, climbs, detached, has, in_subtree, lemma_ancestors_chain, node_linked, node_ranked,
    placed, propagated, slot,
};
use crate::scene::node::{Node, NodeView};

verus! {

/// Along a chain root, `a`, `b`, a pass over the hierarchy leaves in `a`
/// what the arithmetic returned for the root's local transform times the
/// local transform of `a`, and in `b` what it returned for the new world
/// transform of `a` times the local transform of `b`.
pub proof fn lemma_chain_composed<M: Arithmetic>(
    math: &M,
    before: Scene,
    after: Scene,
    a: Node,
    b: Node,
)
    requires
        before.wf(),
        has(before@.nodes, a),
        has(before@.nodes, b),
        before@.nodes[slot(a)].parent == Some(before@.root),
        before@.nodes[slot(b)].parent == Some(a),
        propagated(math, before@.nodes, after@.nodes, before@.root),
        after@.nodes[slot(before@.root)].world_transform == before@.nodes[slot(
            before@.root,
        )].transform,
    ensures
        is_product(
            math,
            before@.nodes[slot(before@.root)].transform,
            before@.nodes[slot(a)].transform,
            after@.nodes[slot(a)].world_transform,
        ),
        is_product(
            math,
            after@.nodes[slot(a)].world_transform,
            before@.nodes[slot(b)].transform,
            after@.nodes[slot(b)].world_transform,
        ),
{
    let nodes = before@.nodes;
    let root = before@.root;
    assert(climbs(nodes, root, root, 0));
    assert(climbs(nodes, a, root, 1));
    assert(climbs(nodes, b, root, 2));
}

/// The same chain where the arithmetic computes a function `times` with
/// the identity as a left unit on the local transform of `a`, and the
/// root stands at the identity: `a` ends with its own local transform as
/// its world transform, and `b` with that times its own local transform.
pub proof fn lemma_chain_worlds<M: Arithmetic>(
    math: &M,
    before: Scene,
    after: Scene,
    a: Node,
    b: Node,
    times: spec_fn(Matrix, Matrix) -> Matrix,
)
    requires
        before.wf(),
        has(before@.nodes, a),
        has(before@.nodes, b),
        before@.nodes[slot(a)].parent == Some(before@.root),
        before@.nodes[slot(b)].parent == Some(a),
        propagated(math, before@.nodes, after@.nodes, before@.root),
        after@.nodes[slot(before@.root)].world_transform == before@.nodes[slot(
            before@.root,
        )].transform,
        before@.nodes[slot(before@.root)].transform == IDENTITY,
        forall|m: Matrix, o: Matrix, r: Matrix| #[trigger] is_product(math, m, o, r) ==> r == times(m, o),
        times(IDENTITY, before@.nodes[slot(a)].transform) == before@.nodes[slot(a)].transform,
    ensures
        after@.nodes[slot(a)].world_transform == before@.nodes[slot(a)].transform,
        after@.nodes[slot(b)].world_transform == times(
            before@.nodes[slot(a)].transform,
            before@.nodes[slot(b)].transform,
        ),
{
    lemma_chain_composed(math, before, after, a, b);
}

/// A node that was taken from its parent, and is not the root, is not
/// under the root any more, and the next pass over the hierarchy leaves
/// its world transform as it was. The same holds of every node under it.
pub proof fn lemma_detached_frozen<M: Arithmetic>(
    math: &M,
    start: Scene,
    cut: Scene,
    done: Scene,
    c: Node,
)
    requires
        start.wf(),
        has(start@.nodes, c),
        c != start@.root,
        cut@ == (SceneView { nodes: detached(start@.nodes, c), ..start@ }),
        propagated(math, cut@.nodes, done@.nodes, cut@.root),
    ensures
        !in_subtree(cut@.nodes, cut@.root, c),
        done@.nodes[slot(c)].world_transform == start@.nodes[slot(c)].world_transform,
        forall|x: Node|
            has(start@.nodes, x) && in_subtree(cut@.nodes, c, x) ==> done@.nodes[slot(
                x,
            )].world_transform == start@.nodes[slot(x)].world_transform,
{
    let nodes = start@.nodes;
    let after = cut@.nodes;
    let root = start@.root;
    assert(node_linked(nodes, slot(c)));
    assert forall|k: nat| !climbs(after, c, root, k) by {}
    assert forall|k: nat| !climbs(after, root, c, k) by {}
    assert forall|x: Node| has(nodes, x) && in_subtree(after, c, x) implies done@.nodes[slot(
        x,
    )].world_transform == nodes[slot(x)].world_transform by {
        if in_subtree(after, root, x) {
            let kc = choose|k: nat| climbs(after, x, c, k);
            let kr = choose|k: nat| climbs(after, x, root, k);
            lemma_ancestors_chain(after, x, c, root, kc, kr);
        }
    }
}

/// A node that went from one parent to another is a child of the new one
/// alone, and the next pass over the hierarchy composes its world
/// transform with that of the new parent, where the new parent is the root
/// or under it.
pub proof fn lemma_reparented<M: Arithmetic>(
    math: &M,
    start: Scene,
    moved: Scene,
    done: Scene,
    first: Node,
    second: Node,
    x: Node,
)
    requires
        start.wf(),
        has(start@.nodes, first),
        has(start@.nodes, second),
        has(start@.nodes, x),
        first != second,
        start@.nodes[slot(x)].parent == Some(first),
        !in_subtree(start@.nodes, x, second),
        moved@ == (SceneView {
            nodes: attached(detached(start@.nodes, x), second, x),
            ..start@
        }),
        propagated(math, moved@.nodes, done@.nodes, moved@.root),
        in_subtree(moved@.nodes, moved@.root, second),
    ensures
        !moved@.nodes[slot(first)].children.contains(x),
        moved@.nodes[slot(second)].children.contains(x),
        moved@.nodes[slot(x)].parent == Some(second),
        is_product(
            math,
            done@.nodes[slot(second)].world_transform,
            moved@.nodes[slot(x)].transform,
            done@.nodes[slot(x)].world_transform,
        ),
{
    let nodes = start@.nodes;
    let cut = detached(nodes, x);
    let tied = moved@.nodes;
    assert(node_linked(nodes, slot(x)));
    assert(node_linked(nodes, slot(first)));
    assert(node_ranked(nodes, start.rank@, start.bound@, slot(x)));
    assert(climbs(nodes, x, x, 0));
    let kids = cut[slot(second)].children;
    assert(kids.push(x)[kids.len() as int] == x);
    let k = choose|k: nat| climbs(tied, second, moved@.root, k);
    assert(climbs(tied, x, moved@.root, k + 1));
}

/// One step in the life of a pool.
pub ghost enum PoolStep {
    /// A node is registered.
    Add(Node),
    /// A node is taken out.
    Remove(Node),
}

/// The step can be taken in a scene of `count` nodes: a node of the scene
/// is registered once.
pub open spec fn step_allowed(v: DrawableView, count: nat, step: PoolStep) -> bool {
    match step {
        PoolStep::Add(n) => 0 <= slot(n) < count && !v.nodes.contains(n),
        PoolStep::Remove(n) => true,
    }
}

/// The drawable after a step.
pub open spec fn after_step(v: DrawableView, step: PoolStep) -> DrawableView {
    match step {
        PoolStep::Add(n) => with_node(v, n),
        PoolStep::Remove(n) => without_node(v, n),
    }
}

/// The drawable after a sequence of steps.
pub open spec fn after_steps(v: DrawableView, steps: Seq<PoolStep>) -> DrawableView
    decreases steps.len(),
{
    if steps.len() == 0 {
        v
    } else {
        after_step(after_steps(v, steps.drop_last()), steps.last())
    }
}

/// Each step of the sequence can be taken when its turn comes.
pub open spec fn steps_allowed(v: DrawableView, count: nat, steps: Seq<PoolStep>) -> bool
    decreases steps.len(),
{
    steps.len() == 0 || (steps_allowed(v, count, steps.drop_last()) && step_allowed(
        after_steps(v, steps.drop_last()),
        count,
        steps.last(),
    ))
}

/// After any sequence of registrations and removals, in a scene of any
/// number of nodes, the pool is sound: the number of its slots is the
/// number of distinct nodes registered, and both arrays have exactly that
/// length, before and after a sync.
pub proof fn lemma_pool_cardinality(v: DrawableView, steps: Seq<PoolStep>, nodes: Seq<NodeView>)
    requires
        nodes.len() <= u32::MAX,
        pooled(v),
        placed(v.nodes, nodes.len()),
        steps_allowed(v, nodes.len(), steps),
    ensures
        pooled(after_steps(v, steps)),
        placed(after_steps(v, steps).nodes, nodes.len()),
        after_steps(v, steps).nodes.to_set().len() == after_steps(v, steps).nodes.len(),
        after_steps(v, steps).matrices.len() == after_steps(v, steps).nodes.len(),
        after_steps(v, steps).materials.len() == after_steps(v, steps).nodes.len(),
        pooled(synced(nodes, after_steps(v, steps))),
        synced(nodes, after_steps(v, steps)).nodes == after_steps(v, steps).nodes,
        synced(nodes, after_steps(v, steps)).matrices.len() == after_steps(v, steps).nodes.len(),
        synced(nodes, after_steps(v, steps)).materials.len() == after_steps(v, steps).nodes.len(),
    decreases steps.len(),
{
    if steps.len() > 0 {
        let earlier = after_steps(v, steps.drop_last());
        lemma_pool_cardinality(v, steps.drop_last(), nodes);
        match steps.last() {
            PoolStep::Add(n) => {
                lemma_room(earlier.nodes, nodes.len(), n);
            },
            PoolStep::Remove(n) => {
                if earlier.nodes.contains(n) {
                    let rest = earlier.nodes.remove(earlier.nodes.index_of(n));
                    assert(placed(rest, nodes.len()));
                }
            },
        }
    }
    after_steps(v, steps).nodes.unique_seq_to_set();
}

} // verus!
