//! Nodes: the entities of the hierarchy, and the operations on them.
use vstd::prelude::*;
use crate::math::matrix::{is_product, Arithmetic, Matrix, IDENTITY};
use crate::scene::{Scene, SceneView};
use crate::scene::drawable::{lemma_room, with_node, without_node, DrawableView};
use crate::scene::hierarchy::{
    attached, climbs, composed, detached, handle, has, in_subtree, lemma_attached_sound,
    lemma_changed_sound, lemma_climbs_extend, lemma_climbs_step, lemma_detached_climbs,
    lemma_detached_sound, lemma_parent_outside, lemma_propagated_from, lemma_subtree_same_parents,
    lemma_under_some_child, lifted, linked, node_linked, node_ranked, propagated, ranked,
    same_but_world, slot, under,
};
use crate::scene::material::{default_material, Material};

verus! {

/// A handle on a node of a scene. A handle means something only to the
/// scene that issued it.
#[derive(Clone, Copy, PartialEq, Eq, Structural, Debug)]
pub struct Node {
    /// The node's identity; the first node of a scene has identity 1.
    pub id: u32,
}

/// What a scene keeps for one node.
pub struct NodeData {
    pub(crate) transform: Matrix,
    pub(crate) world_transform: Matrix,
    pub(crate) parent: Option<Node>,
    pub(crate) children: Vec<Node>,
    pub(crate) drawable: Option<u32>,
    pub(crate) material: Option<Material>,
}

/// The state of one node as contracts speak of it.
pub ghost struct NodeView {
    /// The local transform.
    pub transform: Matrix,
    /// The world transform as the last propagation left it.
    pub world_transform: Matrix,
    /// The node that holds this one among its children, if any.
    pub parent: Option<Node>,
    /// The children, in the order in which they were attached.
    pub children: Seq<Node>,
    /// The identity of the drawable that the node is an instance of.
    pub drawable: Option<u32>,
    /// The material that the node's instance is drawn with.
    pub material: Option<Material>,
}

impl View for NodeData {
    type V = NodeView;

    open(crate) spec fn view(&self) -> NodeView {
        NodeView {
            transform: self.transform,
            world_transform: self.world_transform,
            parent: self.parent,
            children: self.children@,
            drawable: self.drawable,
            material: self.material,
        }
    }
}

/// The views of the stored nodes, slot by slot.
pub open(crate) spec fn views(data: Seq<NodeData>) -> Seq<NodeView> {
    Seq::new(data.len(), |i: int| data[i]@)
}

/// A node as it is created: at the identity, alone, not drawn.
pub open spec fn fresh_node() -> NodeView {
    NodeView {
        transform: crate::math::matrix::IDENTITY,
        world_transform: crate::math::matrix::IDENTITY,
        parent: None,
        children: Seq::empty(),
        drawable: None,
        material: None,
    }
}

impl Scene {
    /// Where `c` stands among the children of its parent `o`.
    fn child_index(&self, o: Node, c: Node) -> (k: usize)
        requires
            self.wf(),
            has(self@.nodes, c),
            self@.nodes[slot(c)].parent == Some(o),
        ensures
            k == self@.nodes[slot(o)].children.index_of(c),
            k < self@.nodes[slot(o)].children.len(),
    {
        let ghost kids = self@.nodes[slot(o)].children;
        proof {
            assert(node_linked(self@.nodes, slot(c)));
            assert(node_linked(self@.nodes, slot(o)));
        }
        let at: usize = (o.id - 1) as usize;
        let count = self.nodes[at].children.len();
        let mut k: usize = 0;
        while k < count && self.nodes[at].children[k] != c
            invariant
                at == slot(o),
                at < self.nodes@.len(),
                kids == self.nodes@[at as int].children@,
                count == kids.len(),
                k <= count,
                forall|j: int| 0 <= j < k ==> kids[j] != c,
            decreases count - k,
        {
            k += 1;
        }
        k
    }

    /// Takes `c` from the children of its parent, if it has one.
    pub(crate) fn detach(&mut self, c: Node)
        requires
            old(self).wf(),
            has(old(self)@.nodes, c),
        ensures
            final(self).wf(),
            final(self)@ == (SceneView { nodes: detached(old(self)@.nodes, c), ..old(self)@ }),
    {
        let ghost before = self@.nodes;
        let at: usize = (c.id - 1) as usize;
        if let Some(o) = self.nodes[at].parent {
            proof {
                assert(node_linked(before, slot(c)));
                lemma_detached_sound(before, self.rank@, self.bound@, c);
            }
            let k = self.child_index(o, c);
            let up: usize = (o.id - 1) as usize;
            self.nodes[up].children.remove(k);
            self.nodes[at].parent = None;
            proof {
                assert(node_ranked(before, self.rank@, self.bound@, slot(c)));
                assert(self@.nodes =~~= detached(before, c));
            }
        }
    }

    /// Makes `c`, which has no parent, the last child of `p`.
    pub(crate) fn attach(&mut self, p: Node, c: Node)
        requires
            old(self).wf(),
            has(old(self)@.nodes, p),
            has(old(self)@.nodes, c),
            c != old(self)@.root,
            old(self)@.nodes[slot(c)].parent is None,
            !in_subtree(old(self)@.nodes, c, p),
        ensures
            final(self).wf(),
            final(self)@ == (SceneView { nodes: attached(old(self)@.nodes, p, c), ..old(self)@ }),
    {
        let ghost before = self@.nodes;
        let ghost rank = self.rank@;
        let ghost bound = self.bound@;
        proof {
            lemma_attached_sound(before, rank, bound, p, c);
        }
        let up: usize = (p.id - 1) as usize;
        let at: usize = (c.id - 1) as usize;
        self.nodes[up].children.push(c);
        self.nodes[at].parent = Some(p);
        proof {
            self.rank@ = lifted(before, rank, p, c);
            self.bound@ = 2 * bound + 1;
            assert(climbs(before, c, c, 0));
            assert(self@.nodes =~~= attached(before, p, c));
        }
    }

    /// Whether `c` is `n` or one of its ancestors.
    pub(crate) fn holds(&self, c: Node, n: Node) -> (r: bool)
        requires
            self.wf(),
            has(self@.nodes, n),
        ensures
            r == in_subtree(self@.nodes, c, n),
    {
        let ghost nodes = self@.nodes;
        let ghost mut steps: nat = 0;
        let mut cur = n;
        let mut met = cur == c;
        let mut top = false;
        while !met && !top
            invariant
                self.wf(),
                nodes == self@.nodes,
                has(nodes, cur),
                climbs(nodes, n, cur, steps),
                in_subtree(nodes, c, n) ==> in_subtree(nodes, c, cur),
                met == (cur == c),
                top ==> cur != c && nodes[slot(cur)].parent is None,
            decreases self.rank@[slot(cur)] + (if top { 0nat } else { 1nat }),
        {
            let at: usize = (cur.id - 1) as usize;
            match self.nodes[at].parent {
                None => {
                    top = true;
                },
                Some(q) => {
                    proof {
                        assert(node_ranked(nodes, self.rank@, self.bound@, slot(cur)));
                        lemma_climbs_extend(nodes, n, cur, steps);
                        if in_subtree(nodes, c, n) {
                            let k = choose|k: nat| climbs(nodes, cur, c, k);
                            lemma_climbs_step(nodes, cur, c, k);
                        }
                        steps = steps + 1;
                    }
                    cur = q;
                    met = cur == c;
                },
            }
        }
        met
    }
}

impl Scene {
    /// Writes the world transform of `n`.
    pub(crate) fn set_world(&mut self, n: Node, w: Matrix)
        requires
            old(self).wf(),
            has(old(self)@.nodes, n),
        ensures
            final(self).wf(),
            final(self).rank@ == old(self).rank@,
            final(self).bound@ == old(self).bound@,
            final(self)@ == (SceneView {
                nodes: old(self)@.nodes.update(
                    slot(n),
                    NodeView { world_transform: w, ..old(self)@.nodes[slot(n)] },
                ),
                ..old(self)@
            }),
    {
        let ghost before = self@.nodes;
        let at: usize = (n.id - 1) as usize;
        self.nodes[at].world_transform = w;
        proof {
            let after = before.update(slot(n), NodeView { world_transform: w, ..before[slot(n)] });
            assert(self@.nodes =~~= after);
            lemma_changed_sound(before, self.rank@, self.bound@, n, after[slot(n)]);
        }
    }

    /// Writes the local transform of `n`. The world transforms follow at
    /// the next pass over the hierarchy.
    pub fn set_transform(&mut self, n: Node, m: Matrix)
        requires
            old(self).wf(),
            has(old(self)@.nodes, n),
        ensures
            final(self).wf(),
            final(self)@ == (SceneView {
                nodes: old(self)@.nodes.update(
                    slot(n),
                    NodeView { transform: m, ..old(self)@.nodes[slot(n)] },
                ),
                ..old(self)@
            }),
    {
        let ghost before = self@.nodes;
        let at: usize = (n.id - 1) as usize;
        self.nodes[at].transform = m;
        proof {
            let after = before.update(slot(n), NodeView { transform: m, ..before[slot(n)] });
            assert(self@.nodes =~~= after);
            lemma_changed_sound(before, self.rank@, self.bound@, n, after[slot(n)]);
        }
    }

    /// Gives `n` a material, or takes it away.
    pub fn set_material(&mut self, n: Node, material: Option<Material>)
        requires
            old(self).wf(),
            has(old(self)@.nodes, n),
        ensures
            final(self).wf(),
            final(self)@ == (SceneView {
                nodes: old(self)@.nodes.update(
                    slot(n),
                    NodeView { material, ..old(self)@.nodes[slot(n)] },
                ),
                ..old(self)@
            }),
    {
        let ghost before = self@.nodes;
        let at: usize = (n.id - 1) as usize;
        self.nodes[at].material = material;
        proof {
            let after = before.update(slot(n), NodeView { material, ..before[slot(n)] });
            assert(self@.nodes =~~= after);
            lemma_changed_sound(before, self.rank@, self.bound@, n, after[slot(n)]);
        }
    }

    /// Recomputes the world transforms under `n`, top-down and depth-first,
    /// from the world transform that `n` holds.
    pub(crate) fn descend<M: Arithmetic>(&mut self, n: Node, math: &M)
        requires
            old(self).wf(),
            has(old(self)@.nodes, n),
        ensures
            final(self).wf(),
            final(self).rank@ == old(self).rank@,
            final(self).bound@ == old(self).bound@,
            final(self)@ == (SceneView { nodes: final(self)@.nodes, ..old(self)@ }),
            propagated(math, old(self)@.nodes, final(self)@.nodes, n),
            final(self)@.nodes[slot(n)].world_transform == old(self)@.nodes[slot(
                n,
            )].world_transform,
        decreases old(self).bound@ - old(self).rank@[slot(n)],
    {
        let ghost entry = self@.nodes;
        let ghost kids = entry[slot(n)].children;
        let ghost rank = self.rank@;
        let ghost bound = self.bound@;
        let ghost outer = self@;
        let at: usize = (n.id - 1) as usize;
        let count = self.nodes[at].children.len();
        let mut k: usize = 0;
        while k < count
            invariant
                self.wf(),
                self.rank@ == rank,
                self.bound@ == bound,
                old(self).rank@ == rank,
                old(self).bound@ == bound,
                self@ == (SceneView { nodes: self@.nodes, ..outer }),
                linked(entry),
                ranked(entry, rank, bound),
                has(entry, n),
                kids == entry[slot(n)].children,
                at == slot(n),
                count == kids.len(),
                k <= count,
                self@.nodes.len() == entry.len(),
                forall|i: int|
                    0 <= i < entry.len() ==> same_but_world(entry[i], #[trigger] self@.nodes[i]),
                forall|i: int|
                    0 <= i < entry.len() && !in_subtree(entry, n, handle(i))
                        ==> (#[trigger] self@.nodes[i]).world_transform
                        == entry[i].world_transform,
                self@.nodes[slot(n)].world_transform == entry[slot(n)].world_transform,
                forall|i: int|
                    0 <= i < entry.len() && under(entry, kids, k as int, handle(i)) ==> composed(
                        math,
                        self@.nodes,
                        i,
                    ),
            decreases count - k,
        {
            let ghost cur = self@.nodes;
            let c = self.nodes[at].children[k];
            proof {
                assert(node_linked(entry, slot(n)));
                assert(node_ranked(entry, rank, bound, slot(c)));
            }
            let to: usize = (c.id - 1) as usize;
            let above: Matrix = self.nodes[at].world_transform;
            let local: Matrix = self.nodes[to].transform;
            let w = math.product(&above, &local);
            self.set_world(c, w);
            let ghost mid = self@.nodes;
            self.descend(c, math);
            proof {
                let now = self@.nodes;
                lemma_parent_outside(entry, rank, bound, c);
                assert(climbs(entry, c, c, 0));
                assert forall|i: int| 0 <= i < entry.len() implies in_subtree(
                    mid,
                    c,
                    handle(i),
                ) == in_subtree(entry, c, handle(i)) by {
                    assert forall|j: int| 0 <= j < entry.len() implies (#[trigger] entry[j]).parent
                        == mid[j].parent by {}
                    lemma_subtree_same_parents(entry, mid, c, handle(i));
                }
                assert forall|i: int| 0 <= i < entry.len() implies same_but_world(
                    entry[i],
                    #[trigger] now[i],
                ) by {}
                assert forall|i: int|
                    0 <= i < entry.len() && !in_subtree(entry, n, handle(i)) implies (
                #[trigger] now[i]).world_transform == entry[i].world_transform by {
                    if in_subtree(entry, c, handle(i)) {
                        let steps = choose|steps: nat| climbs(entry, handle(i), c, steps);
                        lemma_climbs_extend(entry, handle(i), c, steps);
                    }
                }
                assert forall|i: int|
                    0 <= i < entry.len() && under(entry, kids, k + 1, handle(i)) implies composed(
                    math,
                    now,
                    i,
                ) by {
                    let x = handle(i);
                    if x != c && !in_subtree(entry, c, x) {
                        assert(composed(math, cur, i));
                        let q = cur[i].parent->0;
                        assert(node_linked(entry, i));
                        if in_subtree(entry, c, q) {
                            let steps = choose|steps: nat| climbs(entry, q, c, steps);
                            assert(climbs(entry, x, c, steps + 1));
                        }
                    }
                }
            }
            k += 1;
        }
        proof {
            let now = self@.nodes;
            assert forall|i: int|
                0 <= i < entry.len() && handle(i) != n && in_subtree(
                    entry,
                    n,
                    handle(i),
                ) implies composed(math, now, i) by {
                let x = handle(i);
                let steps = choose|steps: nat| climbs(entry, x, n, steps);
                lemma_under_some_child(entry, n, x, steps);
            }
        }
    }
}

/// The drawables after `n` left the pool of the drawable `prev` that it was
/// an instance of, where that is another drawable than `drw`.
pub open spec fn released(
    drawables: Seq<DrawableView>,
    n: Node,
    prev: Option<u32>,
    drw: u32,
) -> Seq<DrawableView> {
    match prev {
        Some(p) => if p != drw && 1 <= p <= drawables.len() {
            drawables.update(p - 1, without_node(drawables[p - 1], n))
        } else {
            drawables
        },
        None => drawables,
    }
}

/// The drawables after `n` entered the pool of the drawable `drw`, where it
/// was not in it yet.
pub open spec fn enrolled(drawables: Seq<DrawableView>, n: Node, drw: u32) -> Seq<DrawableView> {
    if drawables[drw - 1].nodes.contains(n) {
        drawables
    } else {
        drawables.update(drw - 1, with_node(drawables[drw - 1], n))
    }
}

impl Node {
    /// Creates a node in `scene`: at the identity, without parent, children,
    /// drawable or material. Its identity is the number of nodes that the
    /// scene then holds.
    pub fn new(scene: &mut Scene) -> (n: Node)
        requires
            old(scene).wf(),
            old(scene)@.nodes.len() < u32::MAX,
        ensures
            final(scene).wf(),
            n == handle(old(scene)@.nodes.len() as int),
            has(final(scene)@.nodes, n),
            final(scene)@ == (SceneView {
                nodes: old(scene)@.nodes.push(fresh_node()),
                ..old(scene)@
            }),
    {
        let ghost before = scene@.nodes;
        let ghost rank = scene.rank@;
        let ghost bound = scene.bound@;
        let count = scene.nodes.len();
        scene.nodes.push(
            NodeData {
                transform: IDENTITY,
                world_transform: IDENTITY,
                parent: None,
                children: Vec::new(),
                drawable: None,
                material: None,
            },
        );
        proof {
            scene.rank@ = rank.push(0);
            scene.bound@ = bound + 1;
            let after = scene@.nodes;
            assert(after =~= before.push(fresh_node()));
            assert forall|i: int| 0 <= i < after.len() implies #[trigger] node_linked(after, i) by {
                if i < before.len() {
                    assert(node_linked(before, i));
                }
            }
            assert forall|i: int| 0 <= i < after.len() implies #[trigger] node_ranked(
                after,
                scene.rank@,
                scene.bound@,
                i,
            ) by {
                if i < before.len() {
                    assert(node_ranked(before, rank, bound, i));
                }
            }
        }
        Node { id: (count + 1) as u32 }
    }

    /// The node's identity.
    pub fn id(&self) -> (id: u32)
        ensures
            id == self.id,
    {
        self.id
    }

    /// Makes `ch` the last child of this node, taking it from the parent
    /// that it had. Nothing happens, and `false` comes back, where `ch` is
    /// the root, which has no parent, or where this node is `ch` itself or
    /// stands under it: the hierarchy has no cycle.
    pub fn add_child(&self, scene: &mut Scene, ch: Node) -> (done: bool)
        requires
            old(scene).wf(),
            has(old(scene)@.nodes, *self),
            has(old(scene)@.nodes, ch),
        ensures
            final(scene).wf(),
            done == (ch != old(scene)@.root && !in_subtree(old(scene)@.nodes, ch, *self)),
            done ==> final(scene)@ == (SceneView {
                nodes: attached(detached(old(scene)@.nodes, ch), *self, ch),
                ..old(scene)@
            }),
            !done ==> final(scene)@ == old(scene)@,
    {
        let ghost before = scene@.nodes;
        if ch == scene.root || scene.holds(ch, *self) {
            return false;
        }
        proof {
            assert(node_linked(before, slot(ch)));
            if in_subtree(detached(before, ch), ch, *self) {
                let k = choose|k: nat| climbs(detached(before, ch), *self, ch, k);
                lemma_detached_climbs(before, ch, *self, ch, k);
            }
        }
        scene.detach(ch);
        scene.attach(*self, ch);
        true
    }

    /// Takes `ch` from the children of this node. Nothing happens where
    /// `ch` is not one of them. The children of `ch` stay with it.
    pub fn remove_child(&self, scene: &mut Scene, ch: Node)
        requires
            old(scene).wf(),
            has(old(scene)@.nodes, *self),
            has(old(scene)@.nodes, ch),
        ensures
            final(scene).wf(),
            old(scene)@.nodes[slot(ch)].parent == Some(*self) ==> final(scene)@ == (SceneView {
                nodes: detached(old(scene)@.nodes, ch),
                ..old(scene)@
            }),
            old(scene)@.nodes[slot(ch)].parent != Some(*self) ==> final(scene)@ == old(scene)@,
    {
        let at: usize = (ch.id - 1) as usize;
        let mine = match scene.nodes[at].parent {
            Some(p) => p == *self,
            None => false,
        };
        if mine {
            scene.detach(ch);
        }
    }

    /// Makes this node an instance of the drawable `drw` of the scene, with
    /// the default material: the node enters the pool of `drw`, unless it
    /// is in it already, and leaves the pool of the drawable that it was
    /// an instance of before.
    pub fn set_drawable(&self, scene: &mut Scene, drw: u32)
        requires
            old(scene).wf(),
            has(old(scene)@.nodes, *self),
            1 <= drw <= old(scene)@.drawables.len(),
        ensures
            final(scene).wf(),
            final(scene)@ == (SceneView {
                nodes: old(scene)@.nodes.update(
                    slot(*self),
                    NodeView {
                        drawable: Some(drw),
                        material: Some(default_material()),
                        ..old(scene)@.nodes[slot(*self)]
                    },
                ),
                drawables: enrolled(
                    released(
                        old(scene)@.drawables,
                        *self,
                        old(scene)@.nodes[slot(*self)].drawable,
                        drw,
                    ),
                    *self,
                    drw,
                ),
                ..old(scene)@
            }),
    {
        let ghost before = scene@;
        let at: usize = (self.id - 1) as usize;
        if let Some(p) = scene.nodes[at].drawable {
            if p != drw && 1 <= p && (p as usize) <= scene.drawables.len() {
                let from: usize = (p - 1) as usize;
                scene.drawables[from].leave(*self);
            }
        }
        let ghost mid = scene@.drawables;
        proof {
            assert(mid =~= released(before.drawables, *self, before.nodes[slot(*self)].drawable, drw));
        }
        let to: usize = (drw - 1) as usize;
        if scene.drawables[to].position(*self).is_none() {
            proof {
                lemma_room(mid[drw - 1].nodes, before.nodes.len(), *self);
            }
            scene.drawables[to].enter(*self);
        }
        proof {
            assert(scene@.drawables =~= enrolled(mid, *self, drw));
        }
        scene.nodes[at].drawable = Some(drw);
        scene.nodes[at].material = Some(Material::default());
        proof {
            let after = before.nodes.update(
                slot(*self),
                NodeView {
                    drawable: Some(drw),
                    material: Some(default_material()),
                    ..before.nodes[slot(*self)]
                },
            );
            assert(scene@.nodes =~~= after);
            lemma_changed_sound(before.nodes, scene.rank@, scene.bound@, *self, after[slot(*self)]);
        }
    }

    /// Recomputes the world transform of this node from `pwt`, the world
    /// transform above it, and then those of all nodes under it, top-down
    /// and depth-first: each becomes the product of its parent's new world
    /// transform and its own local transform.
    pub fn update<M: Arithmetic>(&self, scene: &mut Scene, pwt: &Matrix, math: &M)
        requires
            old(scene).wf(),
            has(old(scene)@.nodes, *self),
        ensures
            final(scene).wf(),
            final(scene)@ == (SceneView { nodes: final(scene)@.nodes, ..old(scene)@ }),
            propagated(math, old(scene)@.nodes, final(scene)@.nodes, *self),
            is_product(
                math,
                *pwt,
                old(scene)@.nodes[slot(*self)].transform,
                final(scene)@.nodes[slot(*self)].world_transform,
            ),
    {
        let ghost before = scene@.nodes;
        let at: usize = (self.id - 1) as usize;
        let local: Matrix = scene.nodes[at].transform;
        let w = math.product(pwt, &local);
        scene.set_world(*self, w);
        let ghost mid = scene@.nodes;
        scene.descend(*self, math);
        proof {
            lemma_propagated_from(math, before, mid, scene@.nodes, *self);
        }
    }
}

} // verus!
