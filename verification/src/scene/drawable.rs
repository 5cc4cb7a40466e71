//! Drawables: meshes and the pools of nodes that are drawn with them.
use vstd::prelude::*;
use crate::math::matrix::{Matrix, IDENTITY};
use crate::scene::{Scene, SceneView};
use crate::scene::hierarchy::{has, lemma_pool_fits, placed, slot};
use crate::scene::material::{default_material, Material, MATERIAL_STRIDE};
use crate::scene::model::{
    instance_attributes, lemma_sizes, tight, Vertex, VertexAttribute, VertexBufferLayout,
    VertexFormat, VertexStepMode,
};
use crate::scene::node::{views, Node, NodeData, NodeView};

verus! {

/// The bytes that one instance takes in the instance transform buffer.
pub const MATRIX_STRIDE: u64 = 64;

/// The instance pool of a drawable: the nodes drawn with its mesh and, slot
/// for slot, their transforms and materials as the graphics side gets them.
pub struct Instances {
    pub(crate) nodes: Vec<Node>,
    pub(crate) instance_matrices: Vec<Matrix>,
    pub(crate) instance_materials: Vec<Material>,
    pub(crate) instance_buffer: u64,
    pub(crate) instance_material_buffer: u64,
}

/// A mesh, fixed when the drawable is made, and its instance pool.
pub struct Drawable {
    pub(crate) id: u32,
    pub(crate) registered: bool,
    pub(crate) instances: Instances,
    pub(crate) vertices: Vec<Vertex>,
    pub(crate) indices: Vec<u32>,
}

/// The state of a drawable as contracts speak of it.
pub ghost struct DrawableView {
    /// The identity, given when the drawable is made: no other drawable
    /// of the scene has it.
    pub id: u32,
    /// Whether the drawable is in the registry of what a frame draws.
    pub registered: bool,
    /// The nodes of the pool, in slot order.
    pub nodes: Seq<Node>,
    /// The instance transforms, in slot order.
    pub matrices: Seq<Matrix>,
    /// The instance materials, in slot order.
    pub materials: Seq<Material>,
    /// The bytes that the instance transform buffer was last allocated with.
    pub instance_buffer: u64,
    /// The bytes that the instance material buffer was last allocated with.
    pub instance_material_buffer: u64,
    /// The vertices of the mesh.
    pub vertices: Seq<Vertex>,
    /// The indices of the mesh, three to a triangle.
    pub indices: Seq<u32>,
}

impl View for Drawable {
    type V = DrawableView;

    open(crate) spec fn view(&self) -> DrawableView {
        DrawableView {
            id: self.id,
            registered: self.registered,
            nodes: self.instances.nodes@,
            matrices: self.instances.instance_matrices@,
            materials: self.instances.instance_materials@,
            instance_buffer: self.instances.instance_buffer,
            instance_material_buffer: self.instances.instance_material_buffer,
            vertices: self.vertices@,
            indices: self.indices@,
        }
    }
}

/// The drawable is sound. Its mesh can be counted: it has no more vertices
/// and no more indices than a draw call can name. And its pool is in
/// order: no node occurs twice, the two arrays have one slot per node, and
/// both buffers are sized for exactly that many instances.
pub open spec fn pooled(v: DrawableView) -> bool {
    &&& v.vertices.len() <= u32::MAX
    &&& v.indices.len() <= u32::MAX
    &&& v.nodes.no_duplicates()
    &&& v.nodes.len() <= u32::MAX
    &&& v.matrices.len() == v.nodes.len()
    &&& v.materials.len() == v.nodes.len()
    &&& v.instance_buffer == MATRIX_STRIDE * v.nodes.len()
    &&& v.instance_material_buffer == MATERIAL_STRIDE * v.nodes.len()
}

/// A drawable as it is created, under the identity `id`: not registered,
/// and drawn by no node.
pub open spec fn fresh_drawable(id: u32, vertices: Seq<Vertex>, indices: Seq<u32>) -> DrawableView {
    DrawableView {
        id,
        registered: false,
        nodes: Seq::empty(),
        matrices: Seq::empty(),
        materials: Seq::empty(),
        instance_buffer: 0,
        instance_material_buffer: 0,
        vertices,
        indices,
    }
}

/// Every index names a vertex of the mesh.
pub open spec fn indexed(v: DrawableView) -> bool {
    forall|i: int| 0 <= i < v.indices.len() ==> (#[trigger] v.indices[i]) < v.vertices.len()
}

/// `v` with `node` in a new last slot, at the identity and with the
/// default material, and both buffers allocated anew for one instance more.
pub open spec fn with_node(v: DrawableView, node: Node) -> DrawableView {
    DrawableView {
        nodes: v.nodes.push(node),
        matrices: v.matrices.push(IDENTITY),
        materials: v.materials.push(default_material()),
        instance_buffer: (MATRIX_STRIDE * (v.nodes.len() + 1)) as u64,
        instance_material_buffer: (MATERIAL_STRIDE * (v.nodes.len() + 1)) as u64,
        ..v
    }
}

/// `v` without the slot of `node`: the slots behind it move up by one in
/// all three arrays alike, and both buffers are allocated anew for one
/// instance less. `v` itself where `node` has no slot.
pub open spec fn without_node(v: DrawableView, node: Node) -> DrawableView {
    if v.nodes.contains(node) {
        let k = v.nodes.index_of(node);
        DrawableView {
            nodes: v.nodes.remove(k),
            matrices: v.matrices.remove(k),
            materials: v.materials.remove(k),
            instance_buffer: (MATRIX_STRIDE * (v.nodes.len() - 1)) as u64,
            instance_material_buffer: (MATERIAL_STRIDE * (v.nodes.len() - 1)) as u64,
            ..v
        }
    } else {
        v
    }
}

/// The transform that a pass over the pool leaves in slot `k`: the world
/// transform of the slot's node, or what the slot held where the scene has
/// no such node.
pub open spec fn slot_matrix(nodes: Seq<NodeView>, v: DrawableView, k: int) -> Matrix {
    if has(nodes, v.nodes[k]) {
        nodes[slot(v.nodes[k])].world_transform
    } else {
        v.matrices[k]
    }
}

/// The material that a pass over the pool leaves in slot `k`: the material
/// of the slot's node, or what the slot held where the scene has no such
/// node or the node has no material.
pub open spec fn slot_material(nodes: Seq<NodeView>, v: DrawableView, k: int) -> Material {
    if has(nodes, v.nodes[k]) && nodes[slot(v.nodes[k])].material is Some {
        nodes[slot(v.nodes[k])].material->0
    } else {
        v.materials[k]
    }
}

/// `v` with both arrays rewritten from the nodes, slot by slot, in the
/// order of the pool.
pub open spec fn synced(nodes: Seq<NodeView>, v: DrawableView) -> DrawableView {
    DrawableView {
        matrices: Seq::new(v.nodes.len(), |k: int| slot_matrix(nodes, v, k)),
        materials: Seq::new(v.nodes.len(), |k: int| slot_material(nodes, v, k)),
        ..v
    }
}

/// A pool of nodes of a scene has room for one node more of that scene:
/// with a node that it does not hold yet it is still without repeats, and
/// it holds no more nodes than the scene has.
pub proof fn lemma_room(pool: Seq<Node>, count: nat, node: Node)
    requires
        pool.no_duplicates(),
        placed(pool, count),
        0 <= slot(node) < count,
        !pool.contains(node),
    ensures
        pool.push(node).no_duplicates(),
        placed(pool.push(node), count),
        pool.len() < count,
{
    let more = pool.push(node);
    assert forall|x: int, y: int| 0 <= x < more.len() && 0 <= y < more.len() && x != y implies more[x]
        != more[y] by {}
    lemma_pool_fits(more, count);
}

impl Drawable {
    /// Makes a drawable in `scene` for the mesh of these vertices and
    /// indices, with an empty pool and not registered for drawing. Its
    /// identity comes back: the number of drawables that the scene then
    /// holds, which no drawable made before has.
    pub fn new(scene: &mut Scene, vertices: Vec<Vertex>, indices: Vec<u32>) -> (id: u32)
        requires
            old(scene).wf(),
            old(scene)@.drawables.len() < u32::MAX,
            vertices@.len() <= u32::MAX,
            indices@.len() <= u32::MAX,
        ensures
            final(scene).wf(),
            id == old(scene)@.drawables.len() + 1,
            forall|k: int| 0 <= k < old(scene)@.drawables.len() ==> old(scene)@.drawables[k].id != id,
            final(scene)@ == (SceneView {
                drawables: old(scene)@.drawables.push(fresh_drawable(id, vertices@, indices@)),
                ..old(scene)@
            }),
    {
        let ghost before = scene@;
        let id: u32 = (scene.drawables.len() + 1) as u32;
        scene.drawables.push(Drawable::create(id, vertices, indices));
        proof {
            assert(scene@.drawables =~= before.drawables.push(
                fresh_drawable(id, vertices@, indices@),
            ));
        }
        id
    }

    /// A drawable under the identity `id`, with an empty pool.
    pub(crate) fn create(id: u32, vertices: Vec<Vertex>, indices: Vec<u32>) -> (d: Drawable)
        requires
            vertices@.len() <= u32::MAX,
            indices@.len() <= u32::MAX,
        ensures
            d@ == fresh_drawable(id, vertices@, indices@),
            pooled(d@),
    {
        Drawable {
            id,
            registered: false,
            instances: Instances {
                nodes: Vec::new(),
                instance_matrices: Vec::new(),
                instance_materials: Vec::new(),
                instance_buffer: 0,
                instance_material_buffer: 0,
            },
            vertices,
            indices,
        }
    }

    /// Whether every index names a vertex of the mesh.
    pub fn is_indexed(&self) -> (r: bool)
        ensures
            r == indexed(self@),
    {
        let count = self.indices.len();
        let bound = self.vertices.len();
        let mut k: usize = 0;
        while k < count
            invariant
                count == self@.indices.len(),
                bound == self@.vertices.len(),
                k <= count,
                forall|i: int| 0 <= i < k ==> (#[trigger] self@.indices[i]) < bound,
            decreases count - k,
        {
            if self.indices[k] as usize >= bound {
                return false;
            }
            k += 1;
        }
        true
    }

    /// The slot of `node` in the pool, if it has one.
    pub fn position(&self, node: Node) -> (at: Option<usize>)
        requires
            pooled(self@),
        ensures
            at is Some == self@.nodes.contains(node),
            at is Some ==> at->0 == self@.nodes.index_of(node) && at->0 < self@.nodes.len(),
    {
        let count = self.instances.nodes.len();
        let mut k: usize = 0;
        while k < count
            invariant
                count == self@.nodes.len(),
                k <= count,
                self@.nodes.no_duplicates(),
                forall|j: int| 0 <= j < k ==> self@.nodes[j] != node,
            decreases count - k,
        {
            if self.instances.nodes[k] == node {
                return Some(k);
            }
            k += 1;
        }
        None
    }

    /// Registers `node` as an instance of the mesh of the drawable `id` of
    /// `scene`: a new last slot with the identity and the default
    /// material, and both buffers allocated anew for the new number of
    /// instances. A node is registered once.
    pub fn add_node(scene: &mut Scene, id: u32, node: Node)
        requires
            old(scene).wf(),
            1 <= id <= old(scene)@.drawables.len(),
            has(old(scene)@.nodes, node),
            !old(scene)@.drawables[id - 1].nodes.contains(node),
        ensures
            final(scene).wf(),
            final(scene)@ == (SceneView {
                drawables: old(scene)@.drawables.update(
                    id - 1,
                    with_node(old(scene)@.drawables[id - 1], node),
                ),
                ..old(scene)@
            }),
    {
        let ghost before = scene@;
        proof {
            lemma_room(before.drawables[id - 1].nodes, before.nodes.len(), node);
        }
        let at: usize = (id - 1) as usize;
        scene.drawables[at].enter(node);
        proof {
            assert(scene@.drawables =~= before.drawables.update(
                id - 1,
                with_node(before.drawables[id - 1], node),
            ));
        }
    }

    /// Takes `node` out of the pool of the drawable `id` of `scene`: its
    /// slot leaves all three arrays, the slots behind it move up by one
    /// and stay aligned, and both buffers are allocated anew for the new
    /// number of instances. Nothing happens where `node` is not
    /// registered.
    pub fn remove_node(scene: &mut Scene, id: u32, node: Node)
        requires
            old(scene).wf(),
            1 <= id <= old(scene)@.drawables.len(),
        ensures
            final(scene).wf(),
            final(scene)@ == (SceneView {
                drawables: old(scene)@.drawables.update(
                    id - 1,
                    without_node(old(scene)@.drawables[id - 1], node),
                ),
                ..old(scene)@
            }),
    {
        let ghost before = scene@;
        let at: usize = (id - 1) as usize;
        scene.drawables[at].leave(node);
        proof {
            assert(scene@.drawables =~= before.drawables.update(
                id - 1,
                without_node(before.drawables[id - 1], node),
            ));
        }
    }

    /// Puts `node` into a new last slot of the pool.
    pub(crate) fn enter(&mut self, node: Node)
        requires
            pooled(old(self)@),
            !old(self)@.nodes.contains(node),
            old(self)@.nodes.len() < u32::MAX,
        ensures
            pooled(final(self)@),
            final(self)@ == with_node(old(self)@, node),
    {
        self.instances.nodes.push(node);
        self.instances.instance_materials.push(Material::default());
        self.instances.instance_matrices.push(IDENTITY);
        let count: u64 = self.instances.nodes.len() as u64;
        self.instances.instance_buffer = MATRIX_STRIDE * count;
        self.instances.instance_material_buffer = MATERIAL_STRIDE * count;
    }

    /// Takes the slot of `node` out of the pool, if it has one.
    pub(crate) fn leave(&mut self, node: Node)
        requires
            pooled(old(self)@),
        ensures
            pooled(final(self)@),
            final(self)@ == without_node(old(self)@, node),
    {
        if let Some(k) = self.position(node) {
            self.instances.nodes.remove(k);
            self.instances.instance_matrices.remove(k);
            self.instances.instance_materials.remove(k);
            let count: u64 = self.instances.nodes.len() as u64;
            self.instances.instance_buffer = MATRIX_STRIDE * count;
            self.instances.instance_material_buffer = MATERIAL_STRIDE * count;
        }
    }

    /// The layout of the instance transform buffer: one transform per
    /// instance, its four columns at shader locations 2 to 5.
    pub fn instace_desc() -> (layout: VertexBufferLayout)
        ensures
            layout.array_stride == MATRIX_STRIDE,
            layout.step_mode == VertexStepMode::Instance,
            layout.attributes@ == instance_attributes(),
            tight(layout.attributes@, MATRIX_STRIDE as int, 2),
    {
        let mut attributes: Vec<VertexAttribute> = Vec::new();
        attributes.push(
            VertexAttribute { offset: 0, shader_location: 2, format: VertexFormat::Float32x4 },
        );
        attributes.push(
            VertexAttribute { offset: 16, shader_location: 3, format: VertexFormat::Float32x4 },
        );
        attributes.push(
            VertexAttribute { offset: 32, shader_location: 4, format: VertexFormat::Float32x4 },
        );
        attributes.push(
            VertexAttribute { offset: 48, shader_location: 5, format: VertexFormat::Float32x4 },
        );
        proof {
            lemma_sizes(attributes@);
        }
        VertexBufferLayout {
            array_stride: MATRIX_STRIDE,
            step_mode: VertexStepMode::Instance,
            attributes,
        }
    }

    /// The identity.
    pub fn id(&self) -> (id: u32)
        ensures
            id == self@.id,
    {
        self.id
    }

    /// Whether the drawable is in the registry of what a frame draws.
    pub fn is_registered(&self) -> (registered: bool)
        ensures
            registered == self@.registered,
    {
        self.registered
    }

    /// The number of vertices of the mesh.
    pub fn vertex_count(&self) -> (count: u32)
        requires
            pooled(self@),
        ensures
            count == self@.vertices.len(),
    {
        self.vertices.len() as u32
    }

    /// The number of indices of the mesh.
    pub fn index_count(&self) -> (count: u32)
        requires
            pooled(self@),
        ensures
            count == self@.indices.len(),
    {
        self.indices.len() as u32
    }

    /// The vertices of the mesh: the content of the vertex buffer.
    pub fn vertices(&self) -> (vertices: &Vec<Vertex>)
        ensures
            vertices@ == self@.vertices,
    {
        &self.vertices
    }

    /// The indices of the mesh: the content of the index buffer.
    pub fn indices(&self) -> (indices: &Vec<u32>)
        ensures
            indices@ == self@.indices,
    {
        &self.indices
    }

    /// The nodes of the pool, in slot order.
    pub fn nodes(&self) -> (nodes: &Vec<Node>)
        ensures
            nodes@ == self@.nodes,
    {
        &self.instances.nodes
    }

    /// The instance transforms, in slot order: the content of the instance
    /// transform buffer.
    pub fn instance_matrices(&self) -> (matrices: &Vec<Matrix>)
        ensures
            matrices@ == self@.matrices,
    {
        &self.instances.instance_matrices
    }

    /// The instance materials, in slot order: the content of the instance
    /// material buffer.
    pub fn instance_materials(&self) -> (materials: &Vec<Material>)
        ensures
            materials@ == self@.materials,
    {
        &self.instances.instance_materials
    }

    /// The bytes that the instance transform buffer is allocated with.
    pub fn instance_buffer(&self) -> (bytes: u64)
        ensures
            bytes == self@.instance_buffer,
    {
        self.instances.instance_buffer
    }

    /// The bytes that the instance material buffer is allocated with.
    pub fn instance_material_buffer(&self) -> (bytes: u64)
        ensures
            bytes == self@.instance_material_buffer,
    {
        self.instances.instance_material_buffer
    }

    /// The number of nodes in the pool, which is the number of instances
    /// to draw.
    pub fn cardinality(&self) -> (count: u32)
        requires
            pooled(self@),
        ensures
            count == self@.nodes.len(),
    {
        self.instances.nodes.len() as u32
    }

    /// Rewrites both arrays from the nodes, slot by slot.
    pub(crate) fn refresh(&mut self, nodes: &Vec<NodeData>)
        requires
            pooled(old(self)@),
        ensures
            pooled(final(self)@),
            final(self)@ == synced(views(nodes@), old(self)@),
    {
        let ghost before = self@;
        let ghost model = views(nodes@);
        let count = self.instances.nodes.len();
        let mut k: usize = 0;
        while k < count
            invariant
                model == views(nodes@),
                count == before.nodes.len(),
                k <= count,
                pooled(before),
                self@ == (DrawableView {
                    matrices: self@.matrices,
                    materials: self@.materials,
                    ..before
                }),
                self@.matrices.len() == count,
                self@.materials.len() == count,
                forall|j: int|
                    0 <= j < k ==> self@.matrices[j] == slot_matrix(model, before, j)
                        && self@.materials[j] == slot_material(model, before, j),
                forall|j: int|
                    k <= j < count ==> self@.matrices[j] == before.matrices[j]
                        && self@.materials[j] == before.materials[j],
            decreases count - k,
        {
            let node = self.instances.nodes[k];
            if node.id >= 1 && ((node.id - 1) as usize) < nodes.len() {
                let at: usize = (node.id - 1) as usize;
                self.instances.instance_matrices[k] = nodes[at].world_transform;
                if let Some(material) = nodes[at].material {
                    self.instances.instance_materials[k] = material;
                }
            }
            k += 1;
        }
        proof {
            assert(self@.matrices =~= synced(model, before).matrices);
            assert(self@.materials =~= synced(model, before).materials);
        }
    }
}

} // verus!
