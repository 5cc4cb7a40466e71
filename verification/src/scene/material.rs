//! Surface materials of instances.
use vstd::prelude::*;
use crate::math::matrix::{Scalar, Vector};
use crate::scene::model::{
    lemma_sizes, material_attributes, tight, VertexAttribute, VertexBufferLayout, VertexFormat,
    VertexStepMode,
};

verus! {

/// The colours and the two scalars that each instance hands to the shading
/// stage, in the order in which they lie in the instance material buffer.
#[derive(Clone, Copy, PartialEq, Eq, Debug)]
pub struct Material {
    pub ambient: Vector,
    pub diffuse: Vector,
    pub specular: Vector,
    pub shininess: Scalar,
    pub opacity: Scalar,
}

/// The bytes that one instance takes in the instance material buffer.
pub const MATERIAL_STRIDE: u64 = 44;

/// The ambient colour of the default material: 0.1 in each channel.
pub const DEFAULT_AMBIENT: Vector = [0x3dcc_cccd, 0x3dcc_cccd, 0x3dcc_cccd];

/// The diffuse colour of the default material: 0.89 in each channel.
pub const DEFAULT_DIFFUSE: Vector = [0x3f63_d70a, 0x3f63_d70a, 0x3f63_d70a];

/// The specular colour of the default material: 1 in each channel.
pub const DEFAULT_SPECULAR: Vector = [0x3f80_0000, 0x3f80_0000, 0x3f80_0000];

/// The shininess of the default material: 10.
pub const DEFAULT_SHININESS: Scalar = 0x4120_0000;

/// The opacity of the default material: 1.
pub const DEFAULT_OPACITY: Scalar = 0x3f80_0000;

/// The material of an instance that was given none.
pub open spec fn default_material() -> Material {
    Material {
        ambient: DEFAULT_AMBIENT,
        diffuse: DEFAULT_DIFFUSE,
        specular: DEFAULT_SPECULAR,
        shininess: DEFAULT_SHININESS,
        opacity: DEFAULT_OPACITY,
    }
}

impl Material {
    /// The layout of the instance material buffer: one material per
    /// instance, its five fields at shader locations 6 to 10.
    pub fn instace_desc() -> (layout: VertexBufferLayout)
        ensures
            layout.array_stride == MATERIAL_STRIDE,
            layout.step_mode == VertexStepMode::Instance,
            layout.attributes@ == material_attributes(),
            tight(layout.attributes@, MATERIAL_STRIDE as int, 6),
    {
        let mut attributes: Vec<VertexAttribute> = Vec::new();
        attributes.push(
            VertexAttribute { offset: 0, shader_location: 6, format: VertexFormat::Float32x3 },
        );
        attributes.push(
            VertexAttribute { offset: 12, shader_location: 7, format: VertexFormat::Float32x3 },
        );
        attributes.push(
            VertexAttribute { offset: 24, shader_location: 8, format: VertexFormat::Float32x3 },
        );
        attributes.push(
            VertexAttribute { offset: 36, shader_location: 9, format: VertexFormat::Float32 },
        );
        attributes.push(
            VertexAttribute { offset: 40, shader_location: 10, format: VertexFormat::Float32 },
        );
        proof {
            lemma_sizes(attributes@);
        }
        VertexBufferLayout {
            array_stride: MATERIAL_STRIDE,
            step_mode: VertexStepMode::Instance,
            attributes,
        }
    }
}

impl Default for Material {
    fn default() -> (m: Self)
        ensures
            m == default_material(),
    {
        Material {
            ambient: DEFAULT_AMBIENT,
            diffuse: DEFAULT_DIFFUSE,
            specular: DEFAULT_SPECULAR,
            shininess: DEFAULT_SHININESS,
            opacity: DEFAULT_OPACITY,
        }
    }
}

} // verus!
