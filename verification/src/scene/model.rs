//! Vertices, and the layout of the three vertex buffers that the shading
//! stage reads: offsets, formats and shader locations are a contract with
//! it, byte for byte.
use vstd::prelude::*;
use crate::math::matrix::Vector;

verus! {

/// One vertex of a mesh.
#[derive(Clone, Copy, PartialEq, Eq, Debug)]
pub struct Vertex {
    pub position: Vector,
    pub normal: Vector,
}

/// The format of one attribute.
#[derive(Clone, Copy, PartialEq, Eq, Structural, Debug)]
pub enum VertexFormat {
    /// One binary32 number.
    Float32,
    /// Three binary32 numbers.
    Float32x3,
    /// Four binary32 numbers.
    Float32x4,
}

/// Whether a buffer advances per vertex or per instance.
#[derive(Clone, Copy, PartialEq, Eq, Structural, Debug)]
pub enum VertexStepMode {
    Vertex,
    Instance,
}

/// One attribute of a vertex buffer.
#[derive(Clone, Copy, PartialEq, Eq, Structural, Debug)]
pub struct VertexAttribute {
    pub offset: u64,
    pub shader_location: u32,
    pub format: VertexFormat,
}

/// The layout of a vertex buffer.
#[derive(PartialEq, Eq, Debug)]
pub struct VertexBufferLayout {
    pub array_stride: u64,
    pub step_mode: VertexStepMode,
    pub attributes: Vec<VertexAttribute>,
}

/// The bytes that an attribute of a format takes.
pub open spec fn format_size(format: VertexFormat) -> int {
    match format {
        VertexFormat::Float32 => 4,
        VertexFormat::Float32x3 => 12,
        VertexFormat::Float32x4 => 16,
    }
}

/// The bytes that the first `upto` attributes take together.
pub open spec fn size_before(attributes: Seq<VertexAttribute>, upto: int) -> int
    decreases upto,
{
    if upto <= 0 {
        0
    } else {
        size_before(attributes, upto - 1) + format_size(attributes[upto - 1].format)
    }
}

/// The attributes lie one behind the other from offset 0 and fill the
/// stride, and their shader locations count up from `first` by one.
pub open spec fn tight(attributes: Seq<VertexAttribute>, stride: int, first: int) -> bool {
    &&& stride == size_before(attributes, attributes.len() as int)
    &&& forall|i: int|
        0 <= i < attributes.len() ==> (#[trigger] attributes[i]).offset == size_before(
            attributes,
            i,
        ) && attributes[i].shader_location == first + i
}

/// The attributes of the vertex buffer: position, then normal.
pub open spec fn vertex_attributes() -> Seq<VertexAttribute> {
    seq![
        VertexAttribute { offset: 0, shader_location: 0, format: VertexFormat::Float32x3 },
        VertexAttribute { offset: 12, shader_location: 1, format: VertexFormat::Float32x3 },
    ]
}

/// The attributes of the instance transform buffer: the four columns of
/// the transform.
pub open spec fn instance_attributes() -> Seq<VertexAttribute> {
    seq![
        VertexAttribute { offset: 0, shader_location: 2, format: VertexFormat::Float32x4 },
        VertexAttribute { offset: 16, shader_location: 3, format: VertexFormat::Float32x4 },
        VertexAttribute { offset: 32, shader_location: 4, format: VertexFormat::Float32x4 },
        VertexAttribute { offset: 48, shader_location: 5, format: VertexFormat::Float32x4 },
    ]
}

/// The attributes of the instance material buffer: three colours, then
/// shininess and opacity.
pub open spec fn material_attributes() -> Seq<VertexAttribute> {
    seq![
        VertexAttribute { offset: 0, shader_location: 6, format: VertexFormat::Float32x3 },
        VertexAttribute { offset: 12, shader_location: 7, format: VertexFormat::Float32x3 },
        VertexAttribute { offset: 24, shader_location: 8, format: VertexFormat::Float32x3 },
        VertexAttribute { offset: 36, shader_location: 9, format: VertexFormat::Float32 },
        VertexAttribute { offset: 40, shader_location: 10, format: VertexFormat::Float32 },
    ]
}

/// Unfolds the sizes of up to five attributes.
pub proof fn lemma_sizes(attributes: Seq<VertexAttribute>)
    ensures
        size_before(attributes, 0) == 0,
        size_before(attributes, 1) == format_size(attributes[0].format),
        size_before(attributes, 2) == size_before(attributes, 1) + format_size(
            attributes[1].format,
        ),
        size_before(attributes, 3) == size_before(attributes, 2) + format_size(
            attributes[2].format,
        ),
        size_before(attributes, 4) == size_before(attributes, 3) + format_size(
            attributes[3].format,
        ),
        size_before(attributes, 5) == size_before(attributes, 4) + format_size(
            attributes[4].format,
        ),
{
    reveal_with_fuel(size_before, 6);
}

impl Vertex {
    /// The layout of the vertex buffer: 24 bytes per vertex, position at
    /// location 0 and normal at location 1.
    pub fn desc() -> (layout: VertexBufferLayout)
        ensures
            layout.array_stride == 24,
            layout.step_mode == VertexStepMode::Vertex,
            layout.attributes@ == vertex_attributes(),
            tight(layout.attributes@, 24, 0),
    {
        let mut attributes: Vec<VertexAttribute> = Vec::new();
        attributes.push(
            VertexAttribute { offset: 0, shader_location: 0, format: VertexFormat::Float32x3 },
        );
        attributes.push(
            VertexAttribute { offset: 12, shader_location: 1, format: VertexFormat::Float32x3 },
        );
        proof {
            lemma_sizes(attributes@);
        }
        VertexBufferLayout { array_stride: 24, step_mode: VertexStepMode::Vertex, attributes }
    }
}

} // verus!
