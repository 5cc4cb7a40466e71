//! What the events of the window do to the scene, and what they ask of the
//! host. The host owns the window and the loop; it hands each event over
//! and carries out the action that comes back.
use vstd::prelude::*;
use crate::context::render::RenderContext;
use crate::math::matrix::{is_perspective, is_ratio, is_translate, Arithmetic, Scalar, Vector, ZERO};
use crate::scene::{Scene, SceneView};
use crate::scene::camera::Camera;
use crate::scene::hierarchy::{propagated, slot};
use crate::scene::node::NodeView;

verus! {

/// The keys that mean something.
#[derive(Clone, Copy, PartialEq, Eq, Structural, Debug)]
pub enum Key {
    KeyA,
    KeyD,
    KeyW,
    KeyS,
    KeyZ,
    KeyX,
    KeyQ,
    KeyP,
    Other,
}

/// An event of the window.
#[derive(Clone, Copy, PartialEq, Eq, Structural, Debug)]
pub enum Event {
    CloseRequested,
    RedrawRequested,
    Resized { width: u32, height: u32 },
    KeyboardInput { key: Key },
    Other,
}

/// What the host does after the library has handled an event.
#[derive(Clone, Copy, PartialEq, Eq, Structural, Debug)]
pub enum Action {
    /// Leave the loop.
    Exit,
    /// Render a frame, if there is a scene, then ask for the next redraw.
    Render,
    /// Configure the surface for the size that the context now holds.
    Configure,
    /// Print the local transform of the camera's node.
    Print,
    /// Nothing.
    Idle,
}

/// How far one key press moves the camera: 0.1.
pub const STEP: Scalar = 0x3dcc_cccd;

/// One step the other way: -0.1.
pub const BACK: Scalar = 0xbdcc_cccd;

/// The move of key A.
pub const MOVE_A: Vector = [STEP, ZERO, ZERO];

/// The move of key D.
pub const MOVE_D: Vector = [BACK, ZERO, ZERO];

/// The move of key W.
pub const MOVE_W: Vector = [ZERO, STEP, ZERO];

/// The move of key S.
pub const MOVE_S: Vector = [ZERO, BACK, ZERO];

/// The move of key Z.
pub const MOVE_Z: Vector = [ZERO, ZERO, STEP];

/// The move of key X.
pub const MOVE_X: Vector = [ZERO, ZERO, BACK];

/// The move that a key stands for, if it stands for one.
pub open spec fn key_move(key: Key) -> Option<Vector> {
    match key {
        Key::KeyA => Some(MOVE_A),
        Key::KeyD => Some(MOVE_D),
        Key::KeyW => Some(MOVE_W),
        Key::KeyS => Some(MOVE_S),
        Key::KeyZ => Some(MOVE_Z),
        Key::KeyX => Some(MOVE_X),
        _ => None,
    }
}

/// The action that an event asks for.
pub open spec fn action_for(event: Event) -> Action {
    match event {
        Event::CloseRequested => Action::Exit,
        Event::RedrawRequested => Action::Render,
        Event::Resized { width, height } => if width > 0 && height > 0 {
            Action::Configure
        } else {
            Action::Idle
        },
        Event::KeyboardInput { key } => match key {
            Key::KeyQ => Action::Exit,
            Key::KeyP => Action::Print,
            _ => Action::Idle,
        },
        Event::Other => Action::Idle,
    }
}

/// `after` is `before` with the camera's node moved by `v`.
pub open spec fn camera_moved<M: Arithmetic>(
    math: &M,
    before: SceneView,
    after: SceneView,
    v: Vector,
) -> bool {
    &&& after == (SceneView {
        nodes: before.nodes.update(
            slot(before.camera.node),
            NodeView {
                transform: after.nodes[slot(before.camera.node)].transform,
                ..before.nodes[slot(before.camera.node)]
            },
        ),
        ..before
    })
    &&& is_translate(
        math,
        before.nodes[slot(before.camera.node)].transform,
        v,
        after.nodes[slot(before.camera.node)].transform,
    )
}

/// `after` is `before` with the camera's projection computed anew for the
/// aspect ratio of a surface of that size. No node has changed.
pub open spec fn camera_resized<M: Arithmetic>(
    math: &M,
    before: SceneView,
    after: SceneView,
    width: u32,
    height: u32,
) -> bool {
    &&& after == (SceneView {
        camera: Camera {
            aspect: after.camera.aspect,
            projection: after.camera.projection,
            ..before.camera
        },
        ..before
    })
    &&& is_ratio(math, width, height, after.camera.aspect)
    &&& is_perspective(
        math,
        before.camera.projection,
        before.camera.fovy,
        after.camera.aspect,
        before.camera.znear,
        before.camera.zfar,
        after.camera.projection,
    )
}

/// What an event does to the scene.
pub open spec fn scene_after<M: Arithmetic>(
    math: &M,
    before: SceneView,
    after: SceneView,
    event: Event,
) -> bool {
    match event {
        Event::RedrawRequested => {
            &&& after == (SceneView { nodes: after.nodes, ..before })
            &&& propagated(math, before.nodes, after.nodes, before.root)
            &&& after.nodes[slot(before.root)].world_transform == before.nodes[slot(
                before.root,
            )].transform
        },
        Event::Resized { width, height } => camera_resized(math, before, after, width, height),
        Event::KeyboardInput { key } => match key_move(key) {
            Some(v) => camera_moved(math, before, after, v),
            None => after == before,
        },
        _ => after == before,
    }
}

/// What an event does to the context: a new size is taken unless one of
/// its sides is 0.
pub open spec fn context_after(before: RenderContext, after: RenderContext, event: Event) -> bool {
    match event {
        Event::Resized { width, height } => if width > 0 && height > 0 {
            after == (RenderContext { width, height, ..before })
        } else {
            after == before
        },
        _ => after == before,
    }
}

/// The move that a key stands for, if it stands for one.
pub fn step_of(key: Key) -> (v: Option<Vector>)
    ensures
        v == key_move(key),
{
    match key {
        Key::KeyA => Some(MOVE_A),
        Key::KeyD => Some(MOVE_D),
        Key::KeyW => Some(MOVE_W),
        Key::KeyS => Some(MOVE_S),
        Key::KeyZ => Some(MOVE_Z),
        Key::KeyX => Some(MOVE_X),
        _ => None,
    }
}

/// Handles one event. A request to close, and key Q, ask the host to
/// leave. A request to redraw runs the pass over the hierarchy and asks
/// for a frame. A new size goes to the context, unless one of its sides is
/// 0, and its aspect ratio to the camera. Keys A, D, W, S, Z and X move
/// the camera by one step along an axis; key P asks for a print.
pub fn handle<M: Arithmetic>(
    ctx: &mut RenderContext,
    scene: &mut Scene,
    event: Event,
    math: &M,
) -> (action: Action)
    requires
        old(scene).wf(),
    ensures
        final(scene).wf(),
        action == action_for(event),
        scene_after(math, old(scene)@, final(scene)@, event),
        context_after(*old(ctx), *final(ctx), event),
{
    match event {
        Event::CloseRequested => Action::Exit,
        Event::RedrawRequested => {
            scene.update(math);
            Action::Render
        },
        Event::Resized { width, height } => {
            let taken = ctx.resize(width, height);
            let aspect = math.ratio(width, height);
            scene.resize(aspect, math);
            if taken {
                Action::Configure
            } else {
                Action::Idle
            }
        },
        Event::KeyboardInput { key } => {
            match step_of(key) {
                Some(v) => {
                    scene.translate_camera(&v, math);
                    Action::Idle
                },
                None => match key {
                    Key::KeyQ => Action::Exit,
                    Key::KeyP => Action::Print,
                    _ => Action::Idle,
                },
            }
        },
        Event::Other => Action::Idle,
    }
}

/// Handles one event while there is no scene yet: a new size still goes
/// to the context, a request to close and key Q still ask the host to
/// leave, a request to redraw still asks for the next one, and no other
/// key does anything.
pub fn handle_idle(ctx: &mut RenderContext, event: Event) -> (action: Action)
    ensures
        context_after(*old(ctx), *final(ctx), event),
        action == (match event {
            Event::KeyboardInput { key } => if key == Key::KeyQ {
                Action::Exit
            } else {
                Action::Idle
            },
            _ => action_for(event),
        }),
{
    match event {
        Event::CloseRequested => Action::Exit,
        Event::RedrawRequested => Action::Render,
        Event::Resized { width, height } => {
            if ctx.resize(width, height) {
                Action::Configure
            } else {
                Action::Idle
            }
        },
        Event::KeyboardInput { key } => match key {
            Key::KeyQ => Action::Exit,
            _ => Action::Idle,
        },
        Event::Other => Action::Idle,
    }
}

} // verus!
