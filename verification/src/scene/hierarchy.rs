//! The parent/child relation of a scene's nodes, as a mathematical model,
//! and the facts about it that the operations rest on.
use vstd::prelude::*;
use crate::math::matrix::{is_product, Arithmetic};
use crate::scene::node::{Node, NodeView};

verus! {

/// The slot of a node in the sequence of a scene's nodes.
pub open spec fn slot(n: Node) -> int {
    n.id as int - 1
}

/// The handle of the node in slot `i`.
pub open spec fn handle(i: int) -> Node {
    Node { id: (i + 1) as u32 }
}

/// `n` is a node of `nodes`.
pub open spec fn has(nodes: Seq<NodeView>, n: Node) -> bool {
    0 <= slot(n) < nodes.len()
}

/// Following parent links from `n`, at most `steps` of them, arrives at `a`.
pub open spec fn climbs(nodes: Seq<NodeView>, n: Node, a: Node, steps: nat) -> bool
    decreases steps,
{
    n == a || (steps > 0 && has(nodes, n) && match nodes[slot(n)].parent {
        Some(p) => climbs(nodes, p, a, (steps - 1) as nat),
        None => false,
    })
}

/// `n` is `a` or one of its descendants.
pub open spec fn in_subtree(nodes: Seq<NodeView>, a: Node, n: Node) -> bool {
    exists|steps: nat| climbs(nodes, n, a, steps)
}

/// The links of slot `i` are sound: no child occurs twice, the parent
/// lists the node among its children, and each child names the node as its
/// parent.
pub open spec fn node_linked(nodes: Seq<NodeView>, i: int) -> bool {
    &&& nodes[i].children.no_duplicates()
    &&& match nodes[i].parent {
        Some(p) => has(nodes, p) && nodes[slot(p)].children.contains(handle(i)),
        None => true,
    }
    &&& forall|k: int|
        0 <= k < nodes[i].children.len() ==> has(nodes, #[trigger] nodes[i].children[k])
            && nodes[slot(nodes[i].children[k])].parent == Some(handle(i))
}

/// Parent and child links mirror each other throughout.
pub open spec fn linked(nodes: Seq<NodeView>) -> bool {
    &&& nodes.len() <= u32::MAX
    &&& forall|i: int| 0 <= i < nodes.len() ==> #[trigger] node_linked(nodes, i)
}

/// The rank of slot `i` lies under the bound and above its parent's.
pub open spec fn node_ranked(nodes: Seq<NodeView>, rank: Seq<nat>, bound: nat, i: int) -> bool {
    &&& rank[i] < bound
    &&& match nodes[i].parent {
        Some(p) => has(nodes, p) && rank[slot(p)] < rank[i],
        None => true,
    }
}

/// `rank` witnesses that no node is its own ancestor.
pub open spec fn ranked(nodes: Seq<NodeView>, rank: Seq<nat>, bound: nat) -> bool {
    &&& rank.len() == nodes.len()
    &&& forall|i: int| 0 <= i < nodes.len() ==> #[trigger] node_ranked(nodes, rank, bound, i)
}

/// `nodes` without the link between `c` and its parent.
pub open spec fn detached(nodes: Seq<NodeView>, c: Node) -> Seq<NodeView> {
    match nodes[slot(c)].parent {
        Some(o) => {
            let kids = nodes[slot(o)].children;
            nodes.update(slot(o), NodeView { children: kids.remove(kids.index_of(c)), ..nodes[slot(o)] })
                .update(slot(c), NodeView { parent: None, ..nodes[slot(c)] })
        },
        None => nodes,
    }
}

/// `nodes` with `c`, which has no parent, as the last child of `p`.
pub open spec fn attached(nodes: Seq<NodeView>, p: Node, c: Node) -> Seq<NodeView> {
    nodes.update(slot(p), NodeView { children: nodes[slot(p)].children.push(c), ..nodes[slot(p)] })
        .update(slot(c), NodeView { parent: Some(p), ..nodes[slot(c)] })
}

/// Two states of one node that differ at most in the world transform.
pub open spec fn same_but_world(a: NodeView, b: NodeView) -> bool {
    &&& a.transform == b.transform
    &&& a.parent == b.parent
    &&& a.children == b.children
    &&& a.drawable == b.drawable
    &&& a.material == b.material
}

/// `after` is `before` with the world transforms below `top` recomputed:
/// every node under `top` holds what `math` returned for the product of
/// its parent's new world transform and its own local transform, and no
/// other world transform, nor anything else, has changed. What `top`
/// itself holds is not said here.
pub open spec fn propagated<M: Arithmetic>(
    math: &M,
    before: Seq<NodeView>,
    after: Seq<NodeView>,
    top: Node,
) -> bool {
    &&& after.len() == before.len()
    &&& forall|i: int| 0 <= i < before.len() ==> same_but_world(before[i], #[trigger] after[i])
    &&& forall|i: int|
        0 <= i < before.len() && !in_subtree(before, top, handle(i))
            ==> (#[trigger] after[i]).world_transform == before[i].world_transform
    &&& forall|i: int|
        0 <= i < before.len() && handle(i) != top && in_subtree(before, top, handle(i))
            ==> composed(math, after, i)
}

/// The node in slot `i` has a parent, and its world transform is what
/// `math` returned for the parent's world transform times its own local
/// transform.
pub open spec fn composed<M: Arithmetic>(math: &M, nodes: Seq<NodeView>, i: int) -> bool {
    match nodes[i].parent {
        Some(p) => is_product(
            math,
            nodes[slot(p)].world_transform,
            nodes[i].transform,
            nodes[i].world_transform,
        ),
        None => false,
    }
}

/// A node that is not where the climb ends has a parent from which the
/// climb goes on.
pub proof fn lemma_climbs_step(nodes: Seq<NodeView>, n: Node, a: Node, steps: nat)
    requires
        climbs(nodes, n, a, steps),
        n != a,
    ensures
        steps > 0,
        has(nodes, n),
        nodes[slot(n)].parent is Some,
        climbs(nodes, nodes[slot(n)].parent->0, a, (steps - 1) as nat),
{
}

/// A climb that ends at `a` goes on to the parent of `a`.
pub proof fn lemma_climbs_extend(nodes: Seq<NodeView>, n: Node, a: Node, steps: nat)
    requires
        climbs(nodes, n, a, steps),
        has(nodes, a),
        nodes[slot(a)].parent is Some,
    ensures
        climbs(nodes, n, nodes[slot(a)].parent->0, steps + 1),
    decreases steps,
{
    if n != a {
        lemma_climbs_extend(nodes, nodes[slot(n)].parent->0, a, (steps - 1) as nat);
    } else {
        let q = nodes[slot(a)].parent->0;
        assert(climbs(nodes, q, q, steps));
    }
}

/// Climbing depends on the parent links alone.
pub proof fn lemma_climbs_same_parents(
    x: Seq<NodeView>,
    y: Seq<NodeView>,
    n: Node,
    a: Node,
    steps: nat,
)
    requires
        x.len() == y.len(),
        forall|i: int| 0 <= i < x.len() ==> (#[trigger] x[i]).parent == y[i].parent,
    ensures
        climbs(x, n, a, steps) == climbs(y, n, a, steps),
    decreases steps,
{
    if n != a && steps > 0 && has(x, n) {
        if let Some(p) = x[slot(n)].parent {
            lemma_climbs_same_parents(x, y, p, a, (steps - 1) as nat);
        }
    }
}

/// With the same parent links, the same subtrees.
pub proof fn lemma_subtree_same_parents(x: Seq<NodeView>, y: Seq<NodeView>, a: Node, n: Node)
    requires
        x.len() == y.len(),
        forall|i: int| 0 <= i < x.len() ==> (#[trigger] x[i]).parent == y[i].parent,
    ensures
        in_subtree(x, a, n) == in_subtree(y, a, n),
{
    if in_subtree(x, a, n) {
        let k = choose|k: nat| climbs(x, n, a, k);
        lemma_climbs_same_parents(x, y, n, a, k);
    }
    if in_subtree(y, a, n) {
        let k = choose|k: nat| climbs(y, n, a, k);
        lemma_climbs_same_parents(x, y, n, a, k);
    }
}

/// The ancestors of a node lie on one line: of two of them, one is under
/// the other.
pub proof fn lemma_ancestors_chain(
    nodes: Seq<NodeView>,
    n: Node,
    a: Node,
    b: Node,
    ka: nat,
    kb: nat,
)
    requires
        climbs(nodes, n, a, ka),
        climbs(nodes, n, b, kb),
    ensures
        in_subtree(nodes, a, b) || in_subtree(nodes, b, a),
    decreases ka,
{
    if n != a && n != b {
        lemma_ancestors_chain(
            nodes,
            nodes[slot(n)].parent->0,
            a,
            b,
            (ka - 1) as nat,
            (kb - 1) as nat,
        );
    }
}

/// Ranks fall along a climb.
pub proof fn lemma_rank_falls(
    nodes: Seq<NodeView>,
    rank: Seq<nat>,
    bound: nat,
    n: Node,
    a: Node,
    steps: nat,
)
    requires
        ranked(nodes, rank, bound),
        has(nodes, n),
        climbs(nodes, n, a, steps),
    ensures
        has(nodes, a),
        rank[slot(a)] <= rank[slot(n)],
        n != a ==> rank[slot(a)] < rank[slot(n)],
    decreases steps,
{
    if n != a {
        assert(node_ranked(nodes, rank, bound, slot(n)));
        lemma_rank_falls(nodes, rank, bound, nodes[slot(n)].parent->0, a, (steps - 1) as nat);
    }
}

/// A parent is not under its child.
pub proof fn lemma_parent_outside(
    nodes: Seq<NodeView>,
    rank: Seq<nat>,
    bound: nat,
    c: Node,
)
    requires
        ranked(nodes, rank, bound),
        has(nodes, c),
        nodes[slot(c)].parent is Some,
    ensures
        !in_subtree(nodes, c, nodes[slot(c)].parent->0),
{
    let p = nodes[slot(c)].parent->0;
    assert(node_ranked(nodes, rank, bound, slot(c)));
    if in_subtree(nodes, c, p) {
        let k = choose|k: nat| climbs(nodes, p, c, k);
        lemma_rank_falls(nodes, rank, bound, p, c, k);
    }
}

/// `x` is one of the first `upto` of `kids`, or under one of them.
pub open spec fn under(nodes: Seq<NodeView>, kids: Seq<Node>, upto: int, x: Node) -> bool
    decreases upto,
{
    upto > 0 && (in_subtree(nodes, kids[upto - 1], x) || under(nodes, kids, upto - 1, x))
}

/// What is under one of the first `upto` children is under one of the
/// first `more`.
pub proof fn lemma_under_more(nodes: Seq<NodeView>, kids: Seq<Node>, upto: int, more: int, x: Node)
    requires
        0 <= upto <= more,
        under(nodes, kids, upto, x),
    ensures
        under(nodes, kids, more, x),
    decreases more - upto,
{
    if upto < more {
        lemma_under_more(nodes, kids, upto + 1, more, x);
    }
}

/// What is under a node is under its child too, where it hangs on that
/// child's subtree by its parent.
pub proof fn lemma_under_child(nodes: Seq<NodeView>, kids: Seq<Node>, upto: int, x: Node)
    requires
        has(nodes, x),
        nodes[slot(x)].parent is Some,
        under(nodes, kids, upto, nodes[slot(x)].parent->0),
    ensures
        under(nodes, kids, upto, x),
    decreases upto,
{
    let q = nodes[slot(x)].parent->0;
    let kid = kids[upto - 1];
    if in_subtree(nodes, kid, q) {
        let k = choose|k: nat| climbs(nodes, q, kid, k);
        assert(climbs(nodes, x, kid, k + 1));
    } else {
        lemma_under_child(nodes, kids, upto - 1, x);
    }
}

/// Every node below `n` is one of the children of `n`, or under one.
pub proof fn lemma_under_some_child(nodes: Seq<NodeView>, n: Node, x: Node, steps: nat)
    requires
        linked(nodes),
        has(nodes, n),
        has(nodes, x),
        x != n,
        climbs(nodes, x, n, steps),
    ensures
        under(nodes, nodes[slot(n)].children, nodes[slot(n)].children.len() as int, x),
    decreases steps,
{
    let kids = nodes[slot(n)].children;
    let q = nodes[slot(x)].parent->0;
    assert(node_linked(nodes, slot(x)));
    if q == n {
        let j = choose|j: int| 0 <= j < kids.len() && kids[j] == x;
        assert(climbs(nodes, x, kids[j], 0));
        lemma_under_more(nodes, kids, j + 1, kids.len() as int, x);
    } else {
        lemma_under_some_child(nodes, n, q, (steps - 1) as nat);
        lemma_under_child(nodes, kids, kids.len() as int, x);
    }
}

/// Two states of one node with the same parent and the same children.
pub open spec fn same_links(a: NodeView, b: NodeView) -> bool {
    &&& a.parent == b.parent
    &&& a.children == b.children
}

/// Links that are sound stay so where no link differs, and the same ranks
/// stay valid.
pub proof fn lemma_relinked(x: Seq<NodeView>, y: Seq<NodeView>, rank: Seq<nat>, bound: nat)
    requires
        x.len() == y.len(),
        forall|i: int| 0 <= i < x.len() ==> same_links(x[i], #[trigger] y[i]),
        linked(x),
        ranked(x, rank, bound),
    ensures
        linked(y),
        ranked(y, rank, bound),
{
    assert forall|i: int| 0 <= i < y.len() implies #[trigger] node_linked(y, i) by {
        assert(node_linked(x, i));
        assert forall|k: int| 0 <= k < y[i].children.len() implies has(
            y,
            #[trigger] y[i].children[k],
        ) && y[slot(y[i].children[k])].parent == Some(handle(i)) by {}
    }
    assert forall|i: int| 0 <= i < y.len() implies #[trigger] node_ranked(y, rank, bound, i) by {
        assert(node_ranked(x, rank, bound, i));
    }
}

/// Links stay sound, and the same ranks valid, where one node changes in
/// something else than its links.
pub proof fn lemma_changed_sound(
    nodes: Seq<NodeView>,
    rank: Seq<nat>,
    bound: nat,
    n: Node,
    v: NodeView,
)
    requires
        linked(nodes),
        ranked(nodes, rank, bound),
        has(nodes, n),
        same_links(nodes[slot(n)], v),
    ensures
        linked(nodes.update(slot(n), v)),
        ranked(nodes.update(slot(n), v), rank, bound),
{
    let after = nodes.update(slot(n), v);
    assert forall|i: int| 0 <= i < nodes.len() implies same_links(nodes[i], #[trigger] after[i]) by {}
    lemma_relinked(nodes, after, rank, bound);
}

/// Propagation below `top` does not depend on the world transform that
/// `top` held before.
pub proof fn lemma_propagated_from<M: Arithmetic>(
    math: &M,
    before: Seq<NodeView>,
    mid: Seq<NodeView>,
    after: Seq<NodeView>,
    top: Node,
)
    requires
        has(before, top),
        mid.len() == before.len(),
        forall|i: int| 0 <= i < before.len() ==> same_but_world(before[i], #[trigger] mid[i]),
        forall|i: int|
            0 <= i < before.len() && i != slot(top) ==> (#[trigger] mid[i]).world_transform
                == before[i].world_transform,
        propagated(math, mid, after, top),
    ensures
        propagated(math, before, after, top),
{
    assert(climbs(before, top, top, 0));
    assert forall|i: int| 0 <= i < before.len() implies in_subtree(before, top, handle(i))
        == in_subtree(mid, top, handle(i)) by {
        assert forall|j: int| 0 <= j < before.len() implies (#[trigger] before[j]).parent
            == mid[j].parent by {}
        lemma_subtree_same_parents(before, mid, top, handle(i));
    }
    assert forall|i: int| 0 <= i < before.len() implies same_but_world(
        before[i],
        #[trigger] after[i],
    ) by {}
    assert forall|i: int| 0 <= i < before.len() && !in_subtree(before, top, handle(i)) implies (
    #[trigger] after[i]).world_transform == before[i].world_transform by {}
}

/// A sequence without repeats, less one of its items: the others stay,
/// and that one is gone.
pub proof fn lemma_without(kids: Seq<Node>, c: Node)
    requires
        kids.no_duplicates(),
        kids.contains(c),
    ensures
        0 <= kids.index_of(c) < kids.len(),
        kids[kids.index_of(c)] == c,
        kids.remove(kids.index_of(c)).len() == kids.len() - 1,
        kids.remove(kids.index_of(c)).no_duplicates(),
        !kids.remove(kids.index_of(c)).contains(c),
        forall|x: Node|
            x != c ==> kids.remove(kids.index_of(c)).contains(x) == kids.contains(x),
{
    let k = kids.index_of(c);
    let rest = kids.remove(k);
    assert forall|x: int, y: int|
        0 <= x < rest.len() && 0 <= y < rest.len() && x != y implies rest[x] != rest[y] by {}
    assert forall|j: int| 0 <= j < rest.len() implies rest[j] != c by {}
    assert forall|x: Node| x != c implies rest.contains(x) == kids.contains(x) by {
        if kids.contains(x) {
            let jj = choose|jj: int| 0 <= jj < kids.len() && kids[jj] == x;
            let j = if jj < k { jj } else { jj - 1 };
            assert(rest[j] == kids[jj]);
        }
    }
}

/// Every node of `pool` is one of the first `count` nodes of a scene.
pub open spec fn placed(pool: Seq<Node>, count: nat) -> bool {
    forall|j: int| 0 <= j < pool.len() ==> 0 <= slot(#[trigger] pool[j]) < count
}

/// Nodes without repeats, all among the first `count` of a scene, are at
/// most `count`.
pub proof fn lemma_pool_fits(pool: Seq<Node>, count: nat)
    requires
        pool.no_duplicates(),
        placed(pool, count),
    ensures
        pool.len() <= count,
    decreases count,
{
    if count == 0 {
        if pool.len() > 0 {
            assert(0 <= slot(pool[0]) < count);
        }
    } else {
        let last = Node { id: count as u32 };
        if pool.contains(last) {
            let rest = pool.remove(pool.index_of(last));
            assert forall|j: int| 0 <= j < rest.len() implies 0 <= slot(#[trigger] rest[j]) < count
                - 1 by {}
            lemma_pool_fits(rest, (count - 1) as nat);
        } else {
            assert forall|j: int| 0 <= j < pool.len() implies 0 <= slot(#[trigger] pool[j]) < count
                - 1 by {}
            lemma_pool_fits(pool, (count - 1) as nat);
        }
    }
}

/// Taking a link away opens no new way up.
pub proof fn lemma_detached_climbs(nodes: Seq<NodeView>, c: Node, n: Node, a: Node, steps: nat)
    requires
        has(nodes, c),
        nodes[slot(c)].parent is Some ==> has(nodes, nodes[slot(c)].parent->0),
        climbs(detached(nodes, c), n, a, steps),
    ensures
        climbs(nodes, n, a, steps),
    decreases steps,
{
    let cut = detached(nodes, c);
    if n != a {
        let q = cut[slot(n)].parent->0;
        lemma_detached_climbs(nodes, c, q, a, (steps - 1) as nat);
    }
}

/// Detaching a node keeps the links sound and the ranks valid.
pub proof fn lemma_detached_sound(nodes: Seq<NodeView>, rank: Seq<nat>, bound: nat, c: Node)
    requires
        linked(nodes),
        ranked(nodes, rank, bound),
        has(nodes, c),
    ensures
        linked(detached(nodes, c)),
        ranked(detached(nodes, c), rank, bound),
        detached(nodes, c).len() == nodes.len(),
        forall|n: Node| has(nodes, n) == has(detached(nodes, c), n),
{
    let cut = detached(nodes, c);
    assert(node_linked(nodes, slot(c)));
    assert(node_ranked(nodes, rank, bound, slot(c)));
    if let Some(o) = nodes[slot(c)].parent {
        let kids = nodes[slot(o)].children;
        assert(node_linked(nodes, slot(o)));
        lemma_without(kids, c);
        assert forall|i: int| 0 <= i < cut.len() implies #[trigger] node_linked(cut, i) by {
            assert(node_linked(nodes, i));
            assert forall|j: int| 0 <= j < cut[i].children.len() implies has(
                cut,
                #[trigger] cut[i].children[j],
            ) && cut[slot(cut[i].children[j])].parent == Some(handle(i)) by {}
        }
        assert forall|i: int| 0 <= i < cut.len() implies #[trigger] node_ranked(cut, rank, bound, i) by {
            assert(node_ranked(nodes, rank, bound, i));
        }
    }
}

/// The ranks after `c`, which has no parent, went under `p`: what lies
/// under `c` moves up by more than the rank of `p`.
pub open spec fn lifted(nodes: Seq<NodeView>, rank: Seq<nat>, p: Node, c: Node) -> Seq<nat> {
    Seq::new(
        rank.len(),
        |i: int|
            if in_subtree(nodes, c, handle(i)) {
                rank[i] + rank[slot(p)] + 1
            } else {
                rank[i]
            },
    )
}

/// Attaching a node that has no parent, to a node that is not under it,
/// keeps the links sound, and the lifted ranks are valid.
pub proof fn lemma_attached_sound(
    nodes: Seq<NodeView>,
    rank: Seq<nat>,
    bound: nat,
    p: Node,
    c: Node,
)
    requires
        linked(nodes),
        ranked(nodes, rank, bound),
        has(nodes, p),
        has(nodes, c),
        nodes[slot(c)].parent is None,
        !in_subtree(nodes, c, p),
    ensures
        linked(attached(nodes, p, c)),
        ranked(attached(nodes, p, c), lifted(nodes, rank, p, c), 2 * bound + 1),
        attached(nodes, p, c).len() == nodes.len(),
        forall|n: Node| has(nodes, n) == has(attached(nodes, p, c), n),
{
    let tied = attached(nodes, p, c);
    let up = lifted(nodes, rank, p, c);
    assert(climbs(nodes, c, c, 0));
    let kids = nodes[slot(p)].children;
    let more = kids.push(c);
    assert(more[kids.len() as int] == c);
    assert forall|i: int| 0 <= i < tied.len() implies #[trigger] node_linked(tied, i) by {
        assert(node_linked(nodes, i));
        if i == slot(p) {
            assert forall|j: int| 0 <= j < tied[i].children.len() implies has(
                tied,
                #[trigger] tied[i].children[j],
            ) && tied[slot(tied[i].children[j])].parent == Some(handle(i)) by {}
            if let Some(q) = nodes[i].parent {
                if slot(q) != slot(c) {
                    assert(node_ranked(nodes, rank, bound, i));
                }
            }
        } else {
            assert forall|j: int| 0 <= j < tied[i].children.len() implies has(
                tied,
                #[trigger] tied[i].children[j],
            ) && tied[slot(tied[i].children[j])].parent == Some(handle(i)) by {}
            if i != slot(c) && nodes[i].parent == Some(p) {
                let me = handle(i);
                let jj = choose|jj: int| 0 <= jj < kids.len() && kids[jj] == me;
                assert(more[jj] == me);
            }
        }
    }
    assert forall|i: int| 0 <= i < tied.len() implies #[trigger] node_ranked(
        tied,
        up,
        2 * bound + 1,
        i,
    ) by {
        assert(node_ranked(nodes, rank, bound, i));
        assert(node_ranked(nodes, rank, bound, slot(p)));
        if i != slot(c) && nodes[i].parent is Some {
            let q = nodes[i].parent->0;
            if in_subtree(nodes, c, q) {
                let k = choose|k: nat| climbs(nodes, q, c, k);
                assert(climbs(nodes, handle(i), c, k + 1));
            }
        }
    }
}

} // verus!
