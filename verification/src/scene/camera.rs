//! The camera: a node and a projection.
use vstd::prelude::*;
use crate::math::matrix::{
    is_inverse, is_look_at, is_perspective, is_product, is_translate, Arithmetic, Matrix, Scalar,
    Vector, HALF, IDENTITY, ONE, ZERO,
};
use crate::scene::{Scene, SceneView};
use crate::scene::hierarchy::{handle, has, slot};
use crate::scene::node::{fresh_node, Node, NodeView};

verus! {

/// The fixed transform between projection and view that fits the depth
/// range of the projection to that of the graphics side.
pub const CLIP_CORRECTION: Matrix = [
    ONE, ZERO, ZERO, ZERO,
    ZERO, ONE, ZERO, ZERO,
    ZERO, ZERO, HALF, HALF,
    ZERO, ZERO, ZERO, ONE,
];

/// The direction that a camera holds upright.
pub const UP: Vector = [ZERO, ONE, ZERO];

/// The camera as the shading stage reads it.
#[derive(Clone, Copy, PartialEq, Eq, Debug)]
pub struct RawCamera {
    pub view_proj: Matrix,
}

/// A point of view: the node that gives position and orientation, the
/// projection, and the view-projection transform derived from both.
#[derive(Clone, Copy, PartialEq, Eq, Debug)]
pub struct Camera {
    pub node: Node,
    pub projection: Matrix,
    pub transform: Matrix,
    pub aspect: Scalar,
    pub fovy: Scalar,
    pub znear: Scalar,
    pub zfar: Scalar,
}

/// `pose` is what `math` made of an eye position and a target: the
/// identity moved to `eye`, then turned towards `target`, upright.
pub open spec fn is_pose<M: Arithmetic>(math: &M, eye: Vector, target: Vector, pose: Matrix) -> bool {
    exists|moved: Matrix| #[trigger]
        is_translate(math, IDENTITY, eye, moved) && is_look_at(math, moved, target, UP, pose)
}

/// `r` is what `math` made of a projection and a pose: the clip-space
/// correction times the projection, times the inverse of the pose.
pub open spec fn is_view_projection<M: Arithmetic>(
    math: &M,
    projection: Matrix,
    pose: Matrix,
    r: Matrix,
) -> bool {
    exists|clip: Matrix, view: Matrix|
        is_product(math, CLIP_CORRECTION, projection, clip) && is_inverse(math, pose, view)
            && #[trigger] is_product(math, clip, view, r)
}

/// The view-projection transform for a projection and a pose.
fn view_projection<M: Arithmetic>(math: &M, projection: &Matrix, pose: &Matrix) -> (r: Matrix)
    ensures
        is_view_projection(math, *projection, *pose, r),
{
    let clip = math.product(&CLIP_CORRECTION, projection);
    let view = math.inverse(pose);
    let r = math.product(&clip, &view);
    assert(is_product(math, clip, view, r));
    r
}

/// The camera of the shading stage before the first frame: the identity.
pub open spec fn initial_camera() -> RawCamera {
    RawCamera { view_proj: IDENTITY }
}

impl Camera {
    /// The camera of the shading stage before the first frame.
    pub fn setup() -> (raw: RawCamera)
        ensures
            raw == initial_camera(),
    {
        RawCamera { view_proj: IDENTITY }
    }

    /// Creates a camera at `eye` that looks at `target`, on a new node of
    /// `scene`: the node's local transform is the pose, the projection is
    /// the perspective projection of the four parameters, and the
    /// view-projection transform is derived from the two.
    pub fn perspective<M: Arithmetic>(
        scene: &mut Scene,
        eye: &Vector,
        target: &Vector,
        aspect: Scalar,
        fovy: Scalar,
        znear: Scalar,
        zfar: Scalar,
        math: &M,
    ) -> (camera: Camera)
        requires
            old(scene).wf(),
            old(scene)@.nodes.len() < u32::MAX,
        ensures
            final(scene).wf(),
            camera.node == handle(old(scene)@.nodes.len() as int),
            has(final(scene)@.nodes, camera.node),
            final(scene)@ == (SceneView {
                nodes: old(scene)@.nodes.push(
                    NodeView { transform: final(scene)@.nodes[slot(camera.node)].transform, ..fresh_node() },
                ),
                ..old(scene)@
            }),
            is_pose(math, *eye, *target, final(scene)@.nodes[slot(camera.node)].transform),
            is_perspective(math, IDENTITY, fovy, aspect, znear, zfar, camera.projection),
            is_view_projection(
                math,
                camera.projection,
                final(scene)@.nodes[slot(camera.node)].transform,
                camera.transform,
            ),
            camera.aspect == aspect,
            camera.fovy == fovy,
            camera.znear == znear,
            camera.zfar == zfar,
    {
        let node = Node::new(scene);
        let start = crate::math::matrix::new();
        let moved = math.translate(&start, eye);
        let pose = math.look_at(&moved, target, &UP);
        assert(is_translate(math, IDENTITY, *eye, moved));
        scene.set_transform(node, pose);
        let blank = crate::math::matrix::new();
        let projection = math.perspective(&blank, fovy, aspect, znear, zfar);
        let transform = view_projection(math, &projection, &pose);
        proof {
            assert(final(scene)@.nodes =~= old(scene)@.nodes.push(
                NodeView { transform: pose, ..fresh_node() },
            ));
        }
        Camera { node, projection, transform, aspect, fovy, znear, zfar }
    }

    /// Takes a new aspect ratio: the projection is computed anew from it
    /// and the three other parameters, over the projection that was.
    /// Nothing else changes: not the node, not the view-projection
    /// transform.
    pub fn resize<M: Arithmetic>(&mut self, aspect: Scalar, math: &M)
        ensures
            *final(self) == (Camera {
                aspect,
                projection: final(self).projection,
                ..*old(self)
            }),
            is_perspective(
                math,
                old(self).projection,
                old(self).fovy,
                aspect,
                old(self).znear,
                old(self).zfar,
                final(self).projection,
            ),
    {
        self.aspect = aspect;
        let projection = self.projection;
        self.projection = math.perspective(&projection, self.fovy, aspect, self.znear, self.zfar);
    }

    /// Derives the view-projection transform anew, from the projection and
    /// the world transform that the camera's node holds in `scene`.
    pub fn update<M: Arithmetic>(&mut self, scene: &Scene, math: &M)
        requires
            scene.wf(),
            has(scene@.nodes, old(self).node),
        ensures
            *final(self) == (Camera { transform: final(self).transform, ..*old(self) }),
            is_view_projection(
                math,
                old(self).projection,
                scene@.nodes[slot(old(self).node)].world_transform,
                final(self).transform,
            ),
    {
        let at: usize = (self.node.id - 1) as usize;
        let pose: Matrix = scene.nodes[at].world_transform;
        let projection = self.projection;
        self.transform = view_projection(math, &projection, &pose);
    }
}

} // verus!
