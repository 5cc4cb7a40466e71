//! The frame orchestrator: what a frame does to the scene, and which draw
//! calls it issues. The calls to the graphics side are the caller's.
use vstd::prelude::*;
use crate::math::matrix::Arithmetic;
use crate::scene::{light_placed, Scene, SceneView};
use crate::scene::camera::{initial_camera, is_view_projection, Camera, RawCamera};
use crate::scene::drawable::{synced, DrawableView};
use crate::scene::hierarchy::slot;
use crate::scene::light::{default_raw_light, Light, RawLight};

verus! {

/// One instanced, indexed draw: the geometry of a drawable, bound together
/// with its two instance buffers, for that many instances.
#[derive(Clone, Copy, PartialEq, Eq, Structural, Debug)]
pub struct DrawCall {
    /// The identity of the drawable.
    pub drawable: u32,
    /// The number of indices to draw.
    pub index_count: u32,
    /// The number of instances to draw.
    pub instance_count: u32,
}

/// The part of the presentation state that is plain data: the size of the
/// surface and the two uniform records.
pub struct RenderContext {
    pub width: u32,
    pub height: u32,
    pub camera: RawCamera,
    pub lights: [RawLight; 10],
}

/// The draw call for a drawable.
pub open spec fn draw_call(d: DrawableView) -> DrawCall {
    DrawCall {
        drawable: d.id,
        index_count: d.indices.len() as u32,
        instance_count: d.nodes.len() as u32,
    }
}

/// The draw calls of a frame: one for each registered drawable whose pool
/// is not empty, in the order of their identities.
pub open spec fn draw_calls(drawables: Seq<DrawableView>) -> Seq<DrawCall>
    decreases drawables.len(),
{
    if drawables.len() == 0 {
        Seq::empty()
    } else if drawables.last().registered && drawables.last().nodes.len() > 0 {
        draw_calls(drawables.drop_last()).push(draw_call(drawables.last()))
    } else {
        draw_calls(drawables.drop_last())
    }
}

/// The drawables with the instance arrays of every registered one
/// rewritten from the nodes.
pub open spec fn all_synced(v: SceneView) -> Seq<DrawableView> {
    Seq::new(
        v.drawables.len(),
        |i: int|
            if v.drawables[i].registered {
                synced(v.nodes, v.drawables[i])
            } else {
                v.drawables[i]
            },
    )
}

/// `after` is `before` with the camera's view-projection transform and the
/// lights' positions derived anew from the world transforms of their
/// nodes. Nodes and root are as they were.
pub open spec fn viewed<M: Arithmetic>(math: &M, before: SceneView, after: SceneView) -> bool {
    &&& after.nodes == before.nodes
    &&& after.root == before.root
    &&& after.camera == (Camera { transform: after.camera.transform, ..before.camera })
    &&& is_view_projection(
        math,
        before.camera.projection,
        before.nodes[slot(before.camera.node)].world_transform,
        after.camera.transform,
    )
    &&& after.lights.len() == before.lights.len()
    &&& forall|k: int|
        0 <= k < before.lights.len() ==> light_placed(
            before.nodes,
            before.lights[k],
            #[trigger] after.lights[k],
        )
}

/// The place of the surface format to take, among the formats that the
/// surface offers, of which `srgb` says one by one whether it is an sRGB
/// format: the first that is, and the first of all where none is.
pub fn pick_format(srgb: &Vec<bool>) -> (k: usize)
    requires
        srgb@.len() > 0,
    ensures
        k < srgb@.len(),
        srgb@[k as int] || (k == 0 && forall|i: int| 0 <= i < srgb@.len() ==> !srgb@[i]),
        forall|i: int| 0 <= i < k ==> !srgb@[i],
{
    let count = srgb.len();
    let mut k: usize = 0;
    while k < count && !srgb[k]
        invariant
            count == srgb@.len(),
            k <= count,
            forall|i: int| 0 <= i < k ==> !srgb@[i],
        decreases count - k,
    {
        k += 1;
    }
    if k < count {
        k
    } else {
        0
    }
}

impl RenderContext {
    /// The state before the first frame, for a surface of that size: the
    /// camera record at the identity, every light record a white point
    /// light at the origin.
    pub fn new(width: u32, height: u32) -> (ctx: RenderContext)
        ensures
            ctx.width == width,
            ctx.height == height,
            ctx.camera == initial_camera(),
            forall|i: int| 0 <= i < 10 ==> ctx.lights[i] == default_raw_light(),
    {
        RenderContext { width, height, camera: Camera::setup(), lights: Light::setup() }
    }

    /// Takes a new size for the surface, unless one of its sides is 0.
    /// Says whether the size was taken, which is when the surface has to
    /// be configured anew.
    pub fn resize(&mut self, width: u32, height: u32) -> (taken: bool)
        ensures
            taken == (width > 0 && height > 0),
            taken ==> *final(self) == (RenderContext { width, height, ..*old(self) }),
            !taken ==> *final(self) == *old(self),
    {
        if width > 0 && height > 0 {
            self.width = width;
            self.height = height;
            true
        } else {
            false
        }
    }

    /// One frame. The camera's view-projection transform and the lights'
    /// positions are derived anew, and the camera record takes the new
    /// view-projection transform. Where a surface can be presented to,
    /// every registered drawable is synced and the draw calls come back:
    /// one for each registered drawable whose pool is not empty, in the
    /// order of their identities.
    /// Where none can, the frame is skipped: no drawable is touched and no
    /// call comes back.
    pub fn render<M: Arithmetic>(
        &mut self,
        scene: &mut Scene,
        math: &M,
        presentable: bool,
    ) -> (calls: Vec<DrawCall>)
        requires
            old(scene).wf(),
        ensures
            final(scene).wf(),
            viewed(math, old(scene)@, final(scene)@),
            *final(self) == (RenderContext {
                camera: RawCamera { view_proj: final(scene)@.camera.transform },
                ..*old(self)
            }),
            presentable ==> final(scene)@.drawables == all_synced(old(scene)@) && calls@
                == draw_calls(old(scene)@.drawables),
            !presentable ==> final(scene)@.drawables == old(scene)@.drawables && calls@
                == Seq::<DrawCall>::empty(),
    {
        let ghost before = scene@;
        scene.update_camera(math);
        self.camera.view_proj = scene.camera().transform;
        scene.update_lights();
        let mut calls: Vec<DrawCall> = Vec::new();
        if presentable {
            let ghost ready = scene@;
            let count = scene.drawable_count();
            proof {
                scene.lemma_sound();
            }
            let mut k: usize = 0;
            while k < count
                invariant
                    scene.wf(),
                    scene@ == (SceneView { drawables: scene@.drawables, ..ready }),
                    ready.nodes == before.nodes,
                    ready.drawables == before.drawables,
                    count == before.drawables.len(),
                    count <= u32::MAX,
                    scene@.drawables.len() == count,
                    k <= count,
                    forall|j: int| 0 <= j < k ==> scene@.drawables[j] == all_synced(before)[j],
                    forall|j: int| k <= j < count ==> scene@.drawables[j] == before.drawables[j],
                    calls@ == draw_calls(before.drawables.take(k as int)),
                decreases count - k,
            {
                let id: u32 = (k + 1) as u32;
                proof {
                    let upto = before.drawables.take(k + 1);
                    assert(upto.drop_last() =~= before.drawables.take(k as int));
                }
                if scene.drawable(id).is_registered() {
                    scene.sync(id);
                    proof {
                        scene.lemma_sound();
                    }
                    let d = scene.drawable(id);
                    let instances = d.cardinality();
                    if instances > 0 {
                        calls.push(
                            DrawCall {
                                drawable: d.id(),
                                index_count: d.index_count(),
                                instance_count: instances,
                            },
                        );
                    }
                }
                k += 1;
            }
            proof {
                assert(before.drawables.take(count as int) =~= before.drawables);
            }
        }
        calls
    }
}

} // verus!
