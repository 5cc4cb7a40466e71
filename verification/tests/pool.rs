use laylay::math::matrix::{Arithmetic, Matrix, Scalar, Vector, IDENTITY};
use laylay::scene::drawable::Drawable;
use laylay::scene::material::Material;
use laylay::scene::model::{Vertex, VertexAttribute, VertexFormat, VertexStepMode};
use laylay::scene::node::Node;
use laylay::scene::Scene;

/// Arithmetic that hands its first transform back: pools need none.
struct Still;

impl Arithmetic for Still {
    fn ratio(&self, _width: u32, _height: u32) -> Scalar {
        0
    }

    fn product(&self, m: &Matrix, _o: &Matrix) -> Matrix {
        *m
    }

    fn inverse(&self, m: &Matrix) -> Matrix {
        *m
    }

    fn perspective(&self, m: &Matrix, _: Scalar, _: Scalar, _: Scalar, _: Scalar) -> Matrix {
        *m
    }

    fn translate(&self, m: &Matrix, _v: &Vector) -> Matrix {
        *m
    }

    fn look_at(&self, m: &Matrix, _lookat: &Vector, _up: &Vector) -> Matrix {
        *m
    }
}

/// A scene with nodes 1 to 12.
fn stage() -> Scene {
    let mut scene = Scene::new(0, &Still);
    while scene.node_count() < 12 {
        Node::new(&mut scene);
    }
    scene
}

fn quad(scene: &mut Scene) -> u32 {
    let corner = |x: f32, y: f32| Vertex {
        position: [x.to_bits(), y.to_bits(), 0.0f32.to_bits()],
        normal: [0.0f32.to_bits(), 0.0f32.to_bits(), 1.0f32.to_bits()],
    };
    Drawable::new(
        scene,
        vec![corner(0.0, 0.0), corner(1.0, 0.0), corner(1.0, 1.0), corner(0.0, 1.0)],
        vec![0, 1, 2, 2, 3, 0],
    )
}

#[test]
fn fresh_drawable_is_empty_and_has_its_identity() {
    let mut scene = stage();
    let id = quad(&mut scene);
    let d = scene.drawable(id);
    assert_eq!(d.id(), 1);
    assert!(!d.is_registered());
    assert_eq!(d.cardinality(), 0);
    assert_eq!(d.vertex_count(), 4);
    assert_eq!(d.index_count(), 6);
    assert_eq!(d.vertices().len(), 4);
    assert_eq!(d.indices(), &vec![0, 1, 2, 2, 3, 0]);
    assert!(d.nodes().is_empty());
    assert!(d.instance_matrices().is_empty());
    assert!(d.instance_materials().is_empty());
    assert_eq!(d.instance_buffer(), 0);
    assert_eq!(d.instance_material_buffer(), 0);
    assert!(d.is_indexed());
    assert_eq!(quad(&mut scene), 2);
}

#[test]
fn indices_beyond_the_vertices_are_found() {
    let mut scene = Scene::new(0, &Still);
    let one = vec![Vertex { position: [0, 0, 0], normal: [0, 0, 0] }];
    let bad = Drawable::new(&mut scene, one, vec![0, 0, 1]);
    assert!(!scene.drawable(bad).is_indexed());
    let none = Drawable::new(&mut scene, Vec::new(), Vec::new());
    assert!(scene.drawable(none).is_indexed());
}

#[test]
fn add_node_appends_placeholders_and_resizes() {
    let mut scene = stage();
    let id = quad(&mut scene);
    Drawable::add_node(&mut scene, id, Node { id: 7 });
    Drawable::add_node(&mut scene, id, Node { id: 3 });
    let d = scene.drawable(id);
    assert_eq!(d.cardinality(), 2);
    assert_eq!(d.nodes(), &vec![Node { id: 7 }, Node { id: 3 }]);
    assert_eq!(d.instance_matrices(), &vec![IDENTITY, IDENTITY]);
    assert_eq!(d.instance_materials(), &vec![Material::default(), Material::default()]);
    assert_eq!(d.instance_buffer(), 128);
    assert_eq!(d.instance_material_buffer(), 88);
    assert_eq!(d.position(Node { id: 3 }), Some(1));
    assert_eq!(d.position(Node { id: 4 }), None);
}

#[test]
fn remove_node_compacts_all_arrays_alike() {
    let mut scene = stage();
    let id = quad(&mut scene);
    let other = quad(&mut scene);
    for n in 1..=4 {
        Drawable::add_node(&mut scene, id, Node { id: n });
    }
    Drawable::remove_node(&mut scene, id, Node { id: 2 });
    {
        let d = scene.drawable(id);
        assert_eq!(d.cardinality(), 3);
        assert_eq!(d.nodes(), &vec![Node { id: 1 }, Node { id: 3 }, Node { id: 4 }]);
        assert_eq!(d.instance_matrices().len(), 3);
        assert_eq!(d.instance_materials().len(), 3);
        assert_eq!(d.instance_buffer(), 192);
        assert_eq!(d.instance_material_buffer(), 132);
    }
    Drawable::remove_node(&mut scene, id, Node { id: 2 });
    assert_eq!(scene.drawable(id).cardinality(), 3);
    Drawable::remove_node(&mut scene, id, Node { id: 4 });
    Drawable::remove_node(&mut scene, id, Node { id: 1 });
    assert_eq!(scene.drawable(id).nodes(), &vec![Node { id: 3 }]);
    Drawable::remove_node(&mut scene, id, Node { id: 3 });
    let d = scene.drawable(id);
    assert_eq!(d.cardinality(), 0);
    assert_eq!(d.instance_buffer(), 0);
    assert_eq!(d.vertex_count(), 4);
    assert_eq!(d.index_count(), 6);
    assert_eq!(scene.drawable(other).cardinality(), 0);
}

#[test]
fn cardinality_counts_distinct_nodes() {
    let mut scene = stage();
    let id = quad(&mut scene);
    let mut expected: Vec<u32> = Vec::new();
    let steps: [(bool, u32); 9] = [
        (true, 1),
        (true, 2),
        (false, 1),
        (true, 5),
        (false, 9),
        (true, 1),
        (false, 2),
        (false, 5),
        (true, 2),
    ];
    for (add, n) in steps {
        let node = Node { id: n };
        if add {
            if scene.drawable(id).position(node).is_none() {
                Drawable::add_node(&mut scene, id, node);
                expected.push(n);
            }
        } else {
            Drawable::remove_node(&mut scene, id, node);
            expected.retain(|e| *e != n);
        }
        let d = scene.drawable(id);
        assert_eq!(d.cardinality() as usize, expected.len());
        assert_eq!(d.instance_matrices().len(), expected.len());
        assert_eq!(d.instance_materials().len(), expected.len());
        let ids: Vec<u32> = d.nodes().iter().map(|n| n.id()).collect();
        assert_eq!(ids, expected);
    }
    assert_eq!(expected, vec![1, 2]);
}

#[test]
fn default_material_values() {
    let m = Material::default();
    let channel = |v: [u32; 3]| [f32::from_bits(v[0]), f32::from_bits(v[1]), f32::from_bits(v[2])];
    assert_eq!(channel(m.ambient), [0.1, 0.1, 0.1]);
    assert_eq!(channel(m.diffuse), [0.89, 0.89, 0.89]);
    assert_eq!(channel(m.specular), [1.0, 1.0, 1.0]);
    assert_eq!(f32::from_bits(m.shininess), 10.0);
    assert_eq!(f32::from_bits(m.opacity), 1.0);
}

#[test]
fn vertex_layout() {
    let layout = Vertex::desc();
    assert_eq!(layout.array_stride, 24);
    assert_eq!(layout.array_stride as usize, std::mem::size_of::<Vertex>());
    assert_eq!(layout.step_mode, VertexStepMode::Vertex);
    assert_eq!(
        layout.attributes,
        vec![
            VertexAttribute { offset: 0, shader_location: 0, format: VertexFormat::Float32x3 },
            VertexAttribute { offset: 12, shader_location: 1, format: VertexFormat::Float32x3 },
        ]
    );
}

#[test]
fn instance_layout() {
    let layout = Drawable::instace_desc();
    assert_eq!(layout.array_stride, 64);
    assert_eq!(layout.array_stride as usize, std::mem::size_of::<[f32; 16]>());
    assert_eq!(layout.step_mode, VertexStepMode::Instance);
    let expected: Vec<VertexAttribute> = (0..4)
        .map(|i| VertexAttribute {
            offset: 16 * i as u64,
            shader_location: 2 + i,
            format: VertexFormat::Float32x4,
        })
        .collect();
    assert_eq!(layout.attributes, expected);
}

#[test]
fn material_layout() {
    let layout = Material::instace_desc();
    assert_eq!(layout.array_stride, 44);
    assert_eq!(layout.array_stride as usize, std::mem::size_of::<Material>());
    assert_eq!(layout.step_mode, VertexStepMode::Instance);
    assert_eq!(
        layout.attributes,
        vec![
            VertexAttribute { offset: 0, shader_location: 6, format: VertexFormat::Float32x3 },
            VertexAttribute { offset: 12, shader_location: 7, format: VertexFormat::Float32x3 },
            VertexAttribute { offset: 24, shader_location: 8, format: VertexFormat::Float32x3 },
            VertexAttribute { offset: 36, shader_location: 9, format: VertexFormat::Float32 },
            VertexAttribute { offset: 40, shader_location: 10, format: VertexFormat::Float32 },
        ]
    );
}
