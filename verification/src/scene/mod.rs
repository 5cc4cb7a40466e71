//! The scene: hierarchy, drawables, camera and lights.
use vstd::prelude::*;
use crate::math::matrix::{
    is_perspective, is_translate, Arithmetic, Matrix, Scalar, Vector, IDENTITY, ONE, ZERO,
};
use crate::scene::camera::{is_pose, is_view_projection, Camera};
use crate::scene::drawable::{fresh_drawable, pooled, synced, with_node, Drawable, DrawableView};
use crate::scene::hierarchy::{
    climbs, handle, has, in_subtree, lemma_parent_outside, lemma_propagated_from, lemma_rank_falls,
    linked, placed, propagated, ranked, slot,
};
use crate::scene::light::{default_light, translation, Light, RawLight};
use crate::scene::material::{default_material, Material};
use crate::scene::model::Vertex;
use crate::scene::node::{fresh_node, views, Node, NodeData, NodeView};

pub mod camera;
pub mod drawable;
pub mod hierarchy;
pub mod laws;
pub mod light;
pub mod material;
pub mod model;
pub mod node;

verus! {

/// Everything that is drawn, and from where: the nodes with their
/// hierarchy, the drawables, the root, the camera and the lights. It is
/// the context that every operation on a node or a drawable works in.
pub struct Scene {
    pub(crate) nodes: Vec<NodeData>,
    pub(crate) rank: Ghost<Seq<nat>>,
    pub(crate) bound: Ghost<nat>,
    pub(crate) drawables: Vec<Drawable>,
    pub(crate) root: Node,
    pub(crate) camera: Camera,
    pub(crate) lights: Vec<Light>,
}

/// The state of a scene as contracts speak of it.
pub ghost struct SceneView {
    /// The nodes; the node with identity `i` stands in slot `i - 1`.
    pub nodes: Seq<NodeView>,
    /// The drawables; the drawable with identity `i` stands in slot `i - 1`.
    /// Those that are registered are what a frame draws.
    pub drawables: Seq<DrawableView>,
    /// The node at which propagation starts.
    pub root: Node,
    /// The camera.
    pub camera: Camera,
    /// The lights, in order.
    pub lights: Seq<Light>,
}

impl View for Scene {
    type V = SceneView;

    closed spec fn view(&self) -> SceneView {
        SceneView {
            nodes: views(self.nodes@),
            drawables: Seq::new(self.drawables@.len(), |i: int| self.drawables@[i]@),
            root: self.root,
            camera: self.camera,
            lights: self.lights@,
        }
    }
}

/// What holds of every scene between two operations: links mirror each
/// other, root, camera and lights stand on nodes of the scene, the root
/// has no parent, and every drawable has a sound pool of nodes of the
/// scene and the identity of its slot.
pub open spec fn sound(v: SceneView) -> bool {
    &&& linked(v.nodes)
    &&& has(v.nodes, v.root)
    &&& v.nodes[slot(v.root)].parent is None
    &&& has(v.nodes, v.camera.node)
    &&& forall|k: int| 0 <= k < v.lights.len() ==> has(v.nodes, (#[trigger] v.lights[k]).node)
    &&& v.drawables.len() <= u32::MAX
    &&& forall|k: int|
        0 <= k < v.drawables.len() ==> pooled(#[trigger] v.drawables[k]) && placed(
            v.drawables[k].nodes,
            v.nodes.len(),
        ) && v.drawables[k].id == k + 1
}

/// Where the camera of a new scene stands: at 0, 1, -5.
pub const CAMERA_EYE: Vector = [ZERO, ONE, 0xc0a0_0000];

/// What the camera of a new scene looks at: the origin.
pub const CAMERA_TARGET: Vector = [ZERO, ZERO, ZERO];

/// The vertical field of view of the camera of a new scene: 45.
pub const CAMERA_FOVY: Scalar = 0x4234_0000;

/// The near plane of the camera of a new scene: 0.1.
pub const CAMERA_ZNEAR: Scalar = 0x3dcc_cccd;

/// The far plane of the camera of a new scene: 100.
pub const CAMERA_ZFAR: Scalar = 0x42c8_0000;

/// `after` is `before` with the light's position taken from the world
/// transform of its node, and nothing else changed.
pub open spec fn light_placed(nodes: Seq<NodeView>, before: Light, after: Light) -> bool {
    &&& after.raw.position@ == translation(nodes[slot(before.node)].world_transform)
    &&& after == (Light {
        raw: RawLight { position: after.raw.position, ..before.raw },
        ..before
    })
}

impl Scene {
    /// A scene with three nodes: the root and, as its children, the node
    /// of the camera and the node of one light. The camera stands at 0, 1,
    /// -5 and looks at the origin, with a field of view of 45, near plane
    /// 0.1, far plane 100 and the aspect ratio given. The scene holds no
    /// drawable yet.
    pub fn new<M: Arithmetic>(aspect: Scalar, math: &M) -> (scene: Scene)
        ensures
            scene.wf(),
            scene@.root == handle(0),
            scene@.nodes.len() == 3,
            scene@.nodes[0] == (NodeView { children: seq![handle(1), handle(2)], ..fresh_node() }),
            scene@.nodes[1] == (NodeView {
                parent: Some(handle(0)),
                transform: scene@.nodes[1].transform,
                ..fresh_node()
            }),
            scene@.nodes[2] == (NodeView { parent: Some(handle(0)), ..fresh_node() }),
            scene@.drawables == Seq::<DrawableView>::empty(),
            scene@.lights == seq![default_light(handle(2))],
            scene@.camera.node == handle(1),
            scene@.camera.aspect == aspect,
            scene@.camera.fovy == CAMERA_FOVY,
            scene@.camera.znear == CAMERA_ZNEAR,
            scene@.camera.zfar == CAMERA_ZFAR,
            is_pose(math, CAMERA_EYE, CAMERA_TARGET, scene@.nodes[1].transform),
            is_perspective(
                math,
                IDENTITY,
                CAMERA_FOVY,
                aspect,
                CAMERA_ZNEAR,
                CAMERA_ZFAR,
                scene@.camera.projection,
            ),
            is_view_projection(
                math,
                scene@.camera.projection,
                scene@.nodes[1].transform,
                scene@.camera.transform,
            ),
    {
        let root = Node { id: 1 };
        let mut nodes: Vec<NodeData> = Vec::new();
        nodes.push(
            NodeData {
                transform: IDENTITY,
                world_transform: IDENTITY,
                parent: None,
                children: Vec::new(),
                drawable: None,
                material: None,
            },
        );
        let rank: Ghost<Seq<nat>> = Ghost(Seq::empty().push(0nat));
        let bound: Ghost<nat> = Ghost(1nat);
        let mut scene = Scene {
            nodes,
            rank,
            bound,
            drawables: Vec::new(),
            root,
            camera: Camera {
                node: root,
                projection: IDENTITY,
                transform: IDENTITY,
                aspect,
                fovy: CAMERA_FOVY,
                znear: CAMERA_ZNEAR,
                zfar: CAMERA_ZFAR,
            },
            lights: Vec::new(),
        };
        let camera = Camera::perspective(
            &mut scene,
            &CAMERA_EYE,
            &CAMERA_TARGET,
            aspect,
            CAMERA_FOVY,
            CAMERA_ZNEAR,
            CAMERA_ZFAR,
            math,
        );
        scene.camera = camera;
        proof {
            let nodes = scene@.nodes;
            assert forall|k: nat| !climbs(nodes, root, camera.node, k) by {}
        }
        root.add_child(&mut scene, camera.node);
        let light = Light::new(&mut scene);
        proof {
            let nodes = scene@.nodes;
            assert forall|k: nat| !climbs(nodes, root, light.node, k) by {}
        }
        root.add_child(&mut scene, light.node);
        scene.lights.push(light);
        proof {
            assert(scene@.nodes[0].children =~= seq![handle(1), handle(2)]);
        }
        scene
    }

    /// The scene is sound, and no node is its own ancestor.
    pub closed spec fn wf(&self) -> bool {
        &&& sound(self@)
        &&& ranked(self@.nodes, self.rank@, self.bound@)
    }

    /// The per-frame pass over the hierarchy: the root's world transform
    /// becomes its local transform, and every node under the root gets the
    /// product of its parent's new world transform and its own local
    /// transform, parents before children. Nodes that are not under the
    /// root keep the world transform that they had.
    pub fn update<M: Arithmetic>(&mut self, math: &M)
        requires
            old(self).wf(),
        ensures
            final(self).wf(),
            final(self)@ == (SceneView { nodes: final(self)@.nodes, ..old(self)@ }),
            propagated(math, old(self)@.nodes, final(self)@.nodes, old(self)@.root),
            final(self)@.nodes[slot(old(self)@.root)].world_transform == old(self)@.nodes[slot(
                old(self)@.root,
            )].transform,
    {
        let ghost before = self@.nodes;
        let root = self.root;
        let at: usize = (root.id - 1) as usize;
        let local: Matrix = self.nodes[at].transform;
        self.set_world(root, local);
        let ghost mid = self@.nodes;
        self.descend(root, math);
        proof {
            lemma_propagated_from(math, before, mid, self@.nodes, root);
        }
    }

    /// Puts the drawable `id` into the registry of what a frame draws.
    /// Nothing changes where it is there already.
    pub fn add_drawable(&mut self, id: u32)
        requires
            old(self).wf(),
            1 <= id <= old(self)@.drawables.len(),
        ensures
            final(self).wf(),
            final(self)@ == (SceneView {
                drawables: old(self)@.drawables.update(
                    id - 1,
                    DrawableView { registered: true, ..old(self)@.drawables[id - 1] },
                ),
                ..old(self)@
            }),
    {
        let ghost before = self@;
        let at: usize = (id - 1) as usize;
        self.drawables[at].registered = true;
        proof {
            assert(self@.drawables =~= before.drawables.update(
                id - 1,
                DrawableView { registered: true, ..before.drawables[id - 1] },
            ));
        }
    }

    /// Takes a mesh into the scene: a drawable is made for it and
    /// registered, and a new node, attached under the root as its last
    /// child, becomes the one instance of it. The identity of the drawable
    /// and the node come back.
    pub fn add_mesh(&mut self, vertices: Vec<Vertex>, indices: Vec<u32>) -> (made: (u32, Node))
        requires
            old(self).wf(),
            old(self)@.nodes.len() < u32::MAX,
            old(self)@.drawables.len() < u32::MAX,
            vertices@.len() <= u32::MAX,
            indices@.len() <= u32::MAX,
        ensures
            final(self).wf(),
            made.0 == old(self)@.drawables.len() + 1,
            made.1 == handle(old(self)@.nodes.len() as int),
            final(self)@ == (SceneView {
                nodes: old(self)@.nodes.push(
                    NodeView {
                        parent: Some(old(self)@.root),
                        drawable: Some(made.0),
                        material: Some(default_material()),
                        ..fresh_node()
                    },
                ).update(
                    slot(old(self)@.root),
                    NodeView {
                        children: old(self)@.nodes[slot(old(self)@.root)].children.push(made.1),
                        ..old(self)@.nodes[slot(old(self)@.root)]
                    },
                ),
                drawables: old(self)@.drawables.push(
                    with_node(
                        DrawableView {
                            registered: true,
                            ..fresh_drawable(made.0, vertices@, indices@)
                        },
                        made.1,
                    ),
                ),
                ..old(self)@
            }),
    {
        let ghost before = self@;
        let id = Drawable::new(self, vertices, indices);
        self.add_drawable(id);
        let node = Node::new(self);
        let root = self.root;
        proof {
            let nodes = self@.nodes;
            assert forall|k: nat| !climbs(nodes, root, node, k) by {}
        }
        root.add_child(self, node);
        node.set_drawable(self, id);
        proof {
            let target = before.nodes.push(
                NodeView {
                    parent: Some(before.root),
                    drawable: Some(id),
                    material: Some(default_material()),
                    ..fresh_node()
                },
            ).update(
                slot(before.root),
                NodeView {
                    children: before.nodes[slot(before.root)].children.push(node),
                    ..before.nodes[slot(before.root)]
                },
            );
            assert(self@.nodes =~~= target);
            assert(self@.drawables =~~= before.drawables.push(
                with_node(
                    DrawableView { registered: true, ..fresh_drawable(id, vertices@, indices@) },
                    node,
                ),
            ));
        }
        (id, node)
    }

    /// Rewrites the instance arrays of the drawable `id` from the nodes of
    /// its pool, slot by slot in the order of the pool: each slot gets the
    /// world transform and the material of its node. It runs once per
    /// frame, after the pass over the hierarchy.
    pub fn sync(&mut self, id: u32)
        requires
            old(self).wf(),
            1 <= id <= old(self)@.drawables.len(),
        ensures
            final(self).wf(),
            final(self)@ == (SceneView {
                drawables: old(self)@.drawables.update(
                    id - 1,
                    synced(old(self)@.nodes, old(self)@.drawables[id - 1]),
                ),
                ..old(self)@
            }),
    {
        let ghost before = self@;
        let at: usize = (id - 1) as usize;
        self.drawables[at].refresh(&self.nodes);
        proof {
            assert(self@.drawables =~= before.drawables.update(
                id - 1,
                synced(before.nodes, before.drawables[id - 1]),
            ));
        }
    }

    /// Takes a new aspect ratio for the camera: its projection is computed
    /// anew. Neither the camera's node nor any other node is touched.
    pub fn resize<M: Arithmetic>(&mut self, aspect: Scalar, math: &M)
        requires
            old(self).wf(),
        ensures
            final(self).wf(),
            final(self)@ == (SceneView {
                camera: Camera {
                    aspect,
                    projection: final(self)@.camera.projection,
                    ..old(self)@.camera
                },
                ..old(self)@
            }),
            is_perspective(
                math,
                old(self)@.camera.projection,
                old(self)@.camera.fovy,
                aspect,
                old(self)@.camera.znear,
                old(self)@.camera.zfar,
                final(self)@.camera.projection,
            ),
    {
        self.camera.resize(aspect, math);
    }

    /// Moves the camera: the local transform of its node becomes what
    /// `math` returns for it moved by `v`. World transforms follow at the
    /// next pass over the hierarchy.
    pub fn translate_camera<M: Arithmetic>(&mut self, v: &Vector, math: &M)
        requires
            old(self).wf(),
        ensures
            final(self).wf(),
            final(self)@ == (SceneView {
                nodes: old(self)@.nodes.update(
                    slot(old(self)@.camera.node),
                    NodeView {
                        transform: final(self)@.nodes[slot(old(self)@.camera.node)].transform,
                        ..old(self)@.nodes[slot(old(self)@.camera.node)]
                    },
                ),
                ..old(self)@
            }),
            is_translate(
                math,
                old(self)@.nodes[slot(old(self)@.camera.node)].transform,
                *v,
                final(self)@.nodes[slot(old(self)@.camera.node)].transform,
            ),
    {
        let node = self.camera.node;
        let at: usize = (node.id - 1) as usize;
        let local: Matrix = self.nodes[at].transform;
        let moved = math.translate(&local, v);
        self.set_transform(node, moved);
    }

    /// Derives the camera's view-projection transform anew from the world
    /// transform of its node.
    pub fn update_camera<M: Arithmetic>(&mut self, math: &M)
        requires
            old(self).wf(),
        ensures
            final(self).wf(),
            final(self)@ == (SceneView {
                camera: Camera {
                    transform: final(self)@.camera.transform,
                    ..old(self)@.camera
                },
                ..old(self)@
            }),
            is_view_projection(
                math,
                old(self)@.camera.projection,
                old(self)@.nodes[slot(old(self)@.camera.node)].world_transform,
                final(self)@.camera.transform,
            ),
    {
        let mut camera = self.camera;
        camera.update(self, math);
        self.camera = camera;
    }

    /// Takes the position of every light from the world transform of its
    /// node.
    pub fn update_lights(&mut self)
        requires
            old(self).wf(),
        ensures
            final(self).wf(),
            final(self)@ == (SceneView { lights: final(self)@.lights, ..old(self)@ }),
            final(self)@.lights.len() == old(self)@.lights.len(),
            forall|k: int|
                0 <= k < old(self)@.lights.len() ==> light_placed(
                    old(self)@.nodes,
                    old(self)@.lights[k],
                    #[trigger] final(self)@.lights[k],
                ),
    {
        let ghost before = self@;
        let count = self.lights.len();
        let mut k: usize = 0;
        while k < count
            invariant
                self.wf(),
                self@ == (SceneView { lights: self@.lights, ..before }),
                count == before.lights.len(),
                self@.lights.len() == count,
                k <= count,
                forall|j: int|
                    0 <= j < k ==> light_placed(before.nodes, before.lights[j], #[trigger] self@.lights[j]),
                forall|j: int| k <= j < count ==> self@.lights[j] == before.lights[j],
            decreases count - k,
        {
            let mut light = self.lights[k];
            light.update(self);
            self.lights[k] = light;
            k += 1;
        }
    }

    /// Appends a light that stands on a node of this scene.
    pub fn add_light(&mut self, light: Light)
        requires
            old(self).wf(),
            has(old(self)@.nodes, light.node),
        ensures
            final(self).wf(),
            final(self)@ == (SceneView { lights: old(self)@.lights.push(light), ..old(self)@ }),
    {
        self.lights.push(light);
    }

    /// Replaces the camera by one that stands on a node of this scene.
    pub fn set_camera(&mut self, camera: Camera)
        requires
            old(self).wf(),
            has(old(self)@.nodes, camera.node),
        ensures
            final(self).wf(),
            final(self)@ == (SceneView { camera, ..old(self)@ }),
    {
        self.camera = camera;
    }

    /// The root.
    pub fn root(&self) -> (root: Node)
        ensures
            root == self@.root,
    {
        self.root
    }

    /// The camera.
    pub fn camera(&self) -> (camera: Camera)
        ensures
            camera == self@.camera,
    {
        self.camera
    }

    /// The lights, in order.
    pub fn lights(&self) -> (lights: &Vec<Light>)
        ensures
            lights@ == self@.lights,
    {
        &self.lights
    }

    /// The number of nodes.
    pub fn node_count(&self) -> (count: usize)
        ensures
            count == self@.nodes.len(),
    {
        self.nodes.len()
    }

    /// The number of drawables, registered or not.
    pub fn drawable_count(&self) -> (count: usize)
        ensures
            count == self@.drawables.len(),
    {
        self.drawables.len()
    }

    /// Whether `n` is a node of this scene.
    pub fn contains(&self, n: Node) -> (held: bool)
        ensures
            held == has(self@.nodes, n),
    {
        n.id >= 1 && ((n.id - 1) as usize) < self.nodes.len()
    }

    /// Whether the scene holds a drawable under `id`.
    pub fn has_drawable(&self, id: u32) -> (held: bool)
        ensures
            held == (1 <= id <= self@.drawables.len()),
    {
        id >= 1 && ((id - 1) as usize) < self.drawables.len()
    }

    /// The drawable `id`.
    pub fn drawable(&self, id: u32) -> (d: &Drawable)
        requires
            1 <= id <= self@.drawables.len(),
        ensures
            d@ == self@.drawables[id - 1],
    {
        &self.drawables[(id - 1) as usize]
    }

    /// The local transform of `n`.
    pub fn transform(&self, n: Node) -> (m: Matrix)
        requires
            has(self@.nodes, n),
        ensures
            m == self@.nodes[slot(n)].transform,
    {
        self.nodes[(n.id - 1) as usize].transform
    }

    /// The world transform of `n`, as the last pass over the hierarchy
    /// left it.
    pub fn world_transform(&self, n: Node) -> (m: Matrix)
        requires
            has(self@.nodes, n),
        ensures
            m == self@.nodes[slot(n)].world_transform,
    {
        self.nodes[(n.id - 1) as usize].world_transform
    }

    /// The parent of `n`.
    pub fn parent(&self, n: Node) -> (p: Option<Node>)
        requires
            has(self@.nodes, n),
        ensures
            p == self@.nodes[slot(n)].parent,
    {
        self.nodes[(n.id - 1) as usize].parent
    }

    /// The children of `n`, in the order in which they were attached.
    pub fn children(&self, n: Node) -> (kids: &Vec<Node>)
        requires
            has(self@.nodes, n),
        ensures
            kids@ == self@.nodes[slot(n)].children,
    {
        &self.nodes[(n.id - 1) as usize].children
    }

    /// The identity of the drawable that `n` is an instance of.
    pub fn drawable_of(&self, n: Node) -> (id: Option<u32>)
        requires
            has(self@.nodes, n),
        ensures
            id == self@.nodes[slot(n)].drawable,
    {
        self.nodes[(n.id - 1) as usize].drawable
    }

    /// The material of `n`.
    pub fn material(&self, n: Node) -> (material: Option<Material>)
        requires
            has(self@.nodes, n),
        ensures
            material == self@.nodes[slot(n)].material,
    {
        self.nodes[(n.id - 1) as usize].material
    }

    /// A well-formed scene is sound.
    pub proof fn lemma_sound(&self)
        requires
            self.wf(),
        ensures
            sound(self@),
    {
    }

    /// In a well-formed scene no node stands under one of its own
    /// children: the parent of a node is not under that node.
    pub proof fn lemma_no_cycle(&self, c: Node)
        requires
            self.wf(),
            has(self@.nodes, c),
            self@.nodes[slot(c)].parent is Some,
        ensures
            !in_subtree(self@.nodes, c, self@.nodes[slot(c)].parent->0),
    {
        lemma_parent_outside(self@.nodes, self.rank@, self.bound@, c);
    }

    /// In a well-formed scene a node that stands under another is not
    /// above it too: of two different nodes, at most one is under the
    /// other.
    pub proof fn lemma_no_loop(&self, a: Node, b: Node)
        requires
            self.wf(),
            has(self@.nodes, a),
            has(self@.nodes, b),
            a != b,
            in_subtree(self@.nodes, a, b),
        ensures
            !in_subtree(self@.nodes, b, a),
    {
        let nodes = self@.nodes;
        if in_subtree(nodes, b, a) {
            let down = choose|k: nat| climbs(nodes, b, a, k);
            let up = choose|k: nat| climbs(nodes, a, b, k);
            lemma_rank_falls(nodes, self.rank@, self.bound@, b, a, down);
            lemma_rank_falls(nodes, self.rank@, self.bound@, a, b, up);
        }
    }
}

} // verus!
