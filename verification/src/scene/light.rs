//! Lights.
use vstd::prelude::*;
use crate::math::matrix::{Matrix, Scalar, Vector, ONE, ZERO};
use crate::scene::{Scene, SceneView};
use crate::scene::hierarchy::{handle, has, slot};
use crate::scene::node::{fresh_node, Node};

verus! {

/// What a light does.
#[derive(Clone, Copy, PartialEq, Eq, Structural, Debug)]
pub enum LightKind {
    Off,
    Directional,
    Spot,
    Point,
}

/// A light as the shading stage reads it.
#[derive(Clone, Copy, PartialEq, Eq, Debug)]
pub struct RawLight {
    pub kind: u32,
    pub cut_off: Scalar,
    pub position: Vector,
    pub dir: Vector,
    pub ambient: Vector,
    pub diffuse: Vector,
    pub specular: Vector,
    pub attenutation: Vector,
}

/// A light: the node that places it, and its parameters.
#[derive(Clone, Copy, PartialEq, Eq, Debug)]
pub struct Light {
    pub node: Node,
    pub target: Option<Node>,
    pub projection: Matrix,
    pub size: Scalar,
    pub raw: RawLight,
}

/// The half-extent of the volume that a light's projection covers: 40.
pub const SHADOW_SIZE: Scalar = 0x4220_0000;

/// The orthographic projection of a light: half-extent 40 to each side,
/// top below bottom, near plane 0.01, far plane 20.5.
pub const SHADOW_PROJECTION: Matrix = [
    0x3ccc_cccd, ZERO, ZERO, ZERO,
    ZERO, 0xbccc_cccd, ZERO, ZERO,
    ZERO, ZERO, 0xbdc7_e703, ZERO,
    0x8000_0000, ZERO, 0xbf80_1ffc, ONE,
];

/// The cutoff of a light as it is created: 0.35.
pub const DEFAULT_CUT_OFF: Scalar = 0x3eb3_3333;

/// The position and the direction of a light as it is created.
pub const ORIGIN: Vector = [ZERO, ZERO, ZERO];

/// Each colour of a light as it is created: 1 in each channel.
pub const WHITE: Vector = [ONE, ONE, ONE];

/// The attenuation of a light as it is created: 1, 0.5, 0.
pub const DEFAULT_ATTENUATION: Vector = [ONE, 0x3f00_0000, ZERO];

/// The number that the shading stage knows a kind of light by.
pub open spec fn kind_code(kind: LightKind) -> u32 {
    match kind {
        LightKind::Off => 0,
        LightKind::Directional => 1,
        LightKind::Spot => 2,
        LightKind::Point => 3,
    }
}

/// A light as it is created, for the shading stage: a white point light at
/// the origin.
pub open spec fn default_raw_light() -> RawLight {
    RawLight {
        kind: kind_code(LightKind::Point),
        cut_off: DEFAULT_CUT_OFF,
        position: ORIGIN,
        dir: ORIGIN,
        ambient: WHITE,
        diffuse: WHITE,
        specular: WHITE,
        attenutation: DEFAULT_ATTENUATION,
    }
}

/// A light as it is created, on `node`.
pub open spec fn default_light(node: Node) -> Light {
    Light {
        node,
        target: None,
        projection: SHADOW_PROJECTION,
        size: SHADOW_SIZE,
        raw: default_raw_light(),
    }
}

/// The translation of a transform: its entries 12, 13 and 14.
pub open spec fn translation(m: Matrix) -> Seq<Scalar> {
    seq![m[12], m[13], m[14]]
}

impl LightKind {
    /// The number that the shading stage knows this kind by.
    pub fn code(&self) -> (code: u32)
        ensures
            code == kind_code(*self),
    {
        match self {
            LightKind::Off => 0,
            LightKind::Directional => 1,
            LightKind::Spot => 2,
            LightKind::Point => 3,
        }
    }
}

impl RawLight {
    /// A white point light at the origin.
    pub fn new() -> (raw: RawLight)
        ensures
            raw == default_raw_light(),
    {
        RawLight {
            kind: LightKind::Point.code(),
            cut_off: DEFAULT_CUT_OFF,
            position: ORIGIN,
            dir: ORIGIN,
            ambient: WHITE,
            diffuse: WHITE,
            specular: WHITE,
            attenutation: DEFAULT_ATTENUATION,
        }
    }
}

impl Light {
    /// Creates a white point light on a new node of `scene`, with the
    /// orthographic projection that every light carries.
    pub fn new(scene: &mut Scene) -> (light: Light)
        requires
            old(scene).wf(),
            old(scene)@.nodes.len() < u32::MAX,
        ensures
            final(scene).wf(),
            light == default_light(handle(old(scene)@.nodes.len() as int)),
            has(final(scene)@.nodes, light.node),
            final(scene)@ == (SceneView {
                nodes: old(scene)@.nodes.push(fresh_node()),
                ..old(scene)@
            }),
    {
        let node = Node::new(scene);
        Light {
            node,
            target: None,
            projection: SHADOW_PROJECTION,
            size: SHADOW_SIZE,
            raw: RawLight::new(),
        }
    }

    /// Takes the light's position from the world transform that its node
    /// holds in `scene`. Nothing else changes.
    pub fn update(&mut self, scene: &Scene)
        requires
            scene.wf(),
            has(scene@.nodes, old(self).node),
        ensures
            final(self).raw.position@ == translation(
                scene@.nodes[slot(old(self).node)].world_transform,
            ),
            *final(self) == (Light {
                raw: RawLight { position: final(self).raw.position, ..old(self).raw },
                ..*old(self)
            }),
    {
        let at: usize = (self.node.id - 1) as usize;
        let world: Matrix = scene.nodes[at].world_transform;
        let position: Vector = [world[12], world[13], world[14]];
        self.raw.position = position;
    }

    /// The lights of the shading stage before the first frame: white point
    /// lights at the origin in every slot.
    pub fn setup() -> (raws: [RawLight; 10])
        ensures
            forall|i: int| 0 <= i < 10 ==> raws[i] == default_raw_light(),
    {
        let raw = RawLight::new();
        [raw; 10]
    }
}

} // verus!
