use laylay::context::render::{pick_format, DrawCall, RenderContext};
use laylay::math::matrix::{self, Arithmetic, Matrix, Scalar, Vector};
use laylay::scene::camera::Camera;
use laylay::scene::drawable::Drawable;
use laylay::scene::light::Light;
use laylay::scene::material::Material;
use laylay::scene::model::Vertex;
use laylay::scene::node::Node;
use laylay::scene::Scene;

fn dec(m: &Matrix) -> [f32; 16] {
    let mut r = [0.0f32; 16];
    for i in 0..16 {
        r[i] = f32::from_bits(m[i]);
    }
    r
}

fn enc(m: &[f32; 16]) -> Matrix {
    let mut r = [0u32; 16];
    for i in 0..16 {
        r[i] = m[i].to_bits();
    }
    r
}

fn dec3(v: &Vector) -> [f32; 3] {
    [f32::from_bits(v[0]), f32::from_bits(v[1]), f32::from_bits(v[2])]
}

fn enc3(v: [f32; 3]) -> Vector {
    [v[0].to_bits(), v[1].to_bits(), v[2].to_bits()]
}

fn mul(m: &[f32; 16], o: &[f32; 16]) -> [f32; 16] {
    let mut r = [0.0f32; 16];
    for c in 0..4 {
        for row in 0..4 {
            r[c * 4 + row] = o[c * 4] * m[row]
                + o[c * 4 + 1] * m[4 + row]
                + o[c * 4 + 2] * m[8 + row]
                + o[c * 4 + 3] * m[12 + row];
        }
    }
    r
}

fn translate(m: &[f32; 16], v: &[f32; 3]) -> [f32; 16] {
    let mut r = *m;
    r[12] = v[0] * m[0] + v[1] * m[4] + v[2] * m[8] + m[12];
    r[13] = v[0] * m[1] + v[1] * m[5] + v[2] * m[9] + m[13];
    r[14] = v[0] * m[2] + v[1] * m[6] + v[2] * m[10] + m[14];
    r
}

fn perspective(m: &[f32; 16], fovy: f32, aspect: f32, znear: f32, zfar: f32) -> [f32; 16] {
    let f = (fovy * 0.5).cos() / (fovy * 0.5).sin();
    let mut r = *m;
    r[0] = f / aspect;
    r[5] = f;
    r[10] = (zfar + znear) / (znear - zfar);
    r[11] = -1.0;
    r[14] = (2.0 * znear * zfar) / (znear - zfar);
    r
}

fn cross(w: &[f32; 3], v: &[f32; 3]) -> [f32; 3] {
    [w[1] * v[2] - w[2] * v[1], w[2] * v[0] - w[0] * v[2], w[0] * v[1] - w[1] * v[0]]
}

fn dot(w: &[f32; 3], v: &[f32; 3]) -> f32 {
    w[0] * v[0] + w[1] * v[1] + w[2] * v[2]
}

fn normalize(w: &[f32; 3]) -> [f32; 3] {
    let inv = 1.0 / (w[0] * w[0] + w[1] * w[1] + w[2] * w[2]).sqrt();
    [w[0] * inv, w[1] * inv, w[2] * inv]
}

fn look_at(m: &[f32; 16], lookat: &[f32; 3], up: &[f32; 3]) -> [f32; 16] {
    let eye = [m[12], m[13], m[14]];
    let f = normalize(&[m[12] - lookat[0], m[13] - lookat[1], m[14] - lookat[2]]);
    let s = normalize(&cross(&f, up));
    let u = normalize(&cross(&s, &f));
    let mut r = *m;
    r[0] = s[0];
    r[1] = s[1];
    r[2] = s[2];
    r[4] = u[0];
    r[5] = u[1];
    r[6] = u[2];
    r[8] = -f[0];
    r[9] = -f[1];
    r[10] = -f[2];
    r[12] = -dot(&eye, &s);
    r[13] = -dot(&eye, &u);
    r[14] = dot(&eye, &f);
    r
}

fn determinant(m: &[f32; 16]) -> f32 {
    m[12] * m[9] * m[6] * m[3] - m[8] * m[13] * m[6] * m[3] - m[12] * m[5] * m[10] * m[3]
        + m[4] * m[13] * m[10] * m[3]
        + m[8] * m[5] * m[14] * m[3]
        - m[4] * m[9] * m[14] * m[3]
        - m[12] * m[9] * m[2] * m[7]
        + m[8] * m[13] * m[2] * m[7]
        + m[12] * m[1] * m[10] * m[7]
        - m[0] * m[13] * m[10] * m[7]
        - m[8] * m[1] * m[14] * m[7]
        + m[0] * m[9] * m[14] * m[7]
        + m[12] * m[5] * m[2] * m[11]
        - m[4] * m[13] * m[2] * m[11]
        - m[12] * m[1] * m[6] * m[11]
        + m[0] * m[13] * m[6] * m[11]
        + m[4] * m[1] * m[14] * m[11]
        - m[0] * m[5] * m[14] * m[11]
        - m[8] * m[5] * m[2] * m[15]
        + m[4] * m[9] * m[2] * m[15]
        + m[8] * m[1] * m[6] * m[15]
        - m[0] * m[9] * m[6] * m[15]
        - m[4] * m[1] * m[10] * m[15]
        + m[0] * m[5] * m[10] * m[15]
}

fn inverse(m: &[f32; 16]) -> [f32; 16] {
    let d = determinant(m);
    if d == 0.0 {
        return *m;
    }
    let mut r = [0.0f32; 16];
    r[0] = (-m[13] * m[10] * m[7] + m[9] * m[14] * m[7] + m[13] * m[6] * m[11]
        - m[5] * m[14] * m[11]
        - m[9] * m[6] * m[15]
        + m[5] * m[10] * m[15])
        / d;
    r[4] = (m[12] * m[10] * m[7] - m[8] * m[14] * m[7] - m[12] * m[6] * m[11]
        + m[4] * m[14] * m[11]
        + m[8] * m[6] * m[15]
        - m[4] * m[10] * m[15])
        / d;
    r[8] = (-m[12] * m[9] * m[7] + m[8] * m[13] * m[7] + m[12] * m[5] * m[11]
        - m[4] * m[13] * m[11]
        - m[8] * m[5] * m[15]
        + m[4] * m[9] * m[15])
        / d;
    r[12] = (m[12] * m[9] * m[6] - m[8] * m[13] * m[6] - m[12] * m[5] * m[10]
        + m[4] * m[13] * m[10]
        + m[8] * m[5] * m[14]
        - m[4] * m[9] * m[14])
        / d;
    r[1] = (m[13] * m[10] * m[3] - m[9] * m[14] * m[3] - m[13] * m[2] * m[11]
        + m[1] * m[14] * m[11]
        + m[9] * m[2] * m[15]
        - m[1] * m[10] * m[15])
        / d;
    r[5] = (-m[12] * m[10] * m[3] + m[8] * m[14] * m[3] + m[12] * m[2] * m[11]
        - m[0] * m[14] * m[11]
        - m[8] * m[2] * m[15]
        + m[0] * m[10] * m[15])
        / d;
    r[9] = (m[12] * m[9] * m[3] - m[8] * m[13] * m[3] - m[12] * m[1] * m[11]
        + m[0] * m[13] * m[11]
        + m[8] * m[1] * m[15]
        - m[0] * m[9] * m[15])
        / d;
    r[13] = (-m[12] * m[9] * m[2] + m[8] * m[13] * m[2] + m[12] * m[1] * m[10]
        - m[0] * m[13] * m[10]
        - m[8] * m[1] * m[14]
        + m[0] * m[9] * m[14])
        / d;
    r[2] = (-m[13] * m[6] * m[3] + m[5] * m[14] * m[3] + m[13] * m[2] * m[7]
        - m[1] * m[14] * m[7]
        - m[5] * m[2] * m[15]
        + m[1] * m[6] * m[15])
        / d;
    r[6] = (m[12] * m[6] * m[3] - m[4] * m[14] * m[3] - m[12] * m[2] * m[7]
        + m[0] * m[14] * m[7]
        + m[4] * m[2] * m[15]
        - m[0] * m[6] * m[15])
        / d;
    r[10] = (-m[12] * m[5] * m[3] + m[4] * m[13] * m[3] + m[12] * m[1] * m[7]
        - m[0] * m[13] * m[7]
        - m[4] * m[1] * m[15]
        + m[0] * m[5] * m[15])
        / d;
    r[14] = (m[12] * m[5] * m[2] - m[4] * m[13] * m[2] - m[12] * m[1] * m[6]
        + m[0] * m[13] * m[6]
        + m[4] * m[1] * m[14]
        - m[0] * m[5] * m[14])
        / d;
    r[3] = (m[9] * m[6] * m[3] - m[5] * m[10] * m[3] - m[9] * m[2] * m[7]
        + m[1] * m[10] * m[7]
        + m[5] * m[2] * m[11]
        - m[1] * m[6] * m[11])
        / d;
    r[7] = (-m[8] * m[6] * m[3] + m[4] * m[10] * m[3] + m[8] * m[2] * m[7]
        - m[0] * m[10] * m[7]
        - m[4] * m[2] * m[11]
        + m[0] * m[6] * m[11])
        / d;
    r[11] = (m[8] * m[5] * m[3] - m[4] * m[9] * m[3] - m[8] * m[1] * m[7]
        + m[0] * m[9] * m[7]
        + m[4] * m[1] * m[11]
        - m[0] * m[5] * m[11])
        / d;
    r[15] = (-m[8] * m[5] * m[2] + m[4] * m[9] * m[2] + m[8] * m[1] * m[6]
        - m[0] * m[9] * m[6]
        - m[4] * m[1] * m[10]
        + m[0] * m[5] * m[10])
        / d;
    r
}

struct Floats;

impl Arithmetic for Floats {
    fn ratio(&self, width: u32, height: u32) -> Scalar {
        (width as f32 / height as f32).to_bits()
    }

    fn product(&self, m: &Matrix, o: &Matrix) -> Matrix {
        enc(&mul(&dec(m), &dec(o)))
    }

    fn inverse(&self, m: &Matrix) -> Matrix {
        enc(&inverse(&dec(m)))
    }

    fn perspective(
        &self,
        m: &Matrix,
        fovy: Scalar,
        aspect: Scalar,
        znear: Scalar,
        zfar: Scalar,
    ) -> Matrix {
        enc(&perspective(
            &dec(m),
            f32::from_bits(fovy),
            f32::from_bits(aspect),
            f32::from_bits(znear),
            f32::from_bits(zfar),
        ))
    }

    fn translate(&self, m: &Matrix, v: &Vector) -> Matrix {
        enc(&translate(&dec(m), &dec3(v)))
    }

    fn look_at(&self, m: &Matrix, lookat: &Vector, up: &Vector) -> Matrix {
        enc(&look_at(&dec(m), &dec3(lookat), &dec3(up)))
    }
}

const I: [f32; 16] = [
    1.0, 0.0, 0.0, 0.0, 0.0, 1.0, 0.0, 0.0, 0.0, 0.0, 1.0, 0.0, 0.0, 0.0, 0.0, 1.0,
];

fn moved(x: f32, y: f32, z: f32) -> Matrix {
    enc(&translate(&I, &[x, y, z]))
}

fn close(a: &[f32; 16], b: &[f32; 16], tolerance: f32) -> bool {
    (0..16).all(|i| (a[i] - b[i]).abs() <= tolerance)
}

fn triangle() -> (Vec<Vertex>, Vec<u32>) {
    let vertices = vec![
        Vertex { position: enc3([0.0, 0.5, 0.0]), normal: enc3([0.0, 0.0, 0.0]) },
        Vertex { position: enc3([-0.5, -0.5, 0.0]), normal: enc3([0.0, 0.0, 0.0]) },
        Vertex { position: enc3([0.5, -0.5, 0.0]), normal: enc3([0.0, 0.0, 0.0]) },
    ];
    (vertices, vec![0, 1, 2])
}

#[test]
fn new_scene_has_root_camera_and_light() {
    let scene = Scene::new(1.5f32.to_bits(), &Floats);
    let root = scene.root();
    assert_eq!(root.id(), 1);
    assert_eq!(scene.node_count(), 3);
    assert_eq!(scene.drawable_count(), 0);
    let camera = scene.camera();
    assert_eq!(camera.node.id(), 2);
    assert_eq!(scene.lights().len(), 1);
    let light = scene.lights()[0];
    assert_eq!(light.node.id(), 3);
    assert_eq!(scene.children(root), &vec![camera.node, light.node]);
    assert_eq!(scene.parent(camera.node), Some(root));
    assert_eq!(scene.parent(light.node), Some(root));
    assert_eq!(scene.parent(root), None);
    assert_eq!(dec(&scene.transform(root)), I);
    assert_eq!(dec(&scene.world_transform(camera.node)), I);
}

#[test]
fn new_scene_camera_looks_from_behind() {
    let scene = Scene::new(2.0f32.to_bits(), &Floats);
    let camera = scene.camera();
    assert_eq!(f32::from_bits(camera.aspect), 2.0);
    assert_eq!(f32::from_bits(camera.fovy), 45.0);
    assert_eq!(f32::from_bits(camera.znear), 0.1);
    assert_eq!(f32::from_bits(camera.zfar), 100.0);
    let pose = look_at(&translate(&I, &[0.0, 1.0, -5.0]), &[0.0, 0.0, 0.0], &[0.0, 1.0, 0.0]);
    assert_eq!(dec(&scene.transform(camera.node)), pose);
    let projection = perspective(&I, 45.0, 2.0, 0.1, 100.0);
    assert_eq!(dec(&camera.projection), projection);
    let correction = [
        1.0, 0.0, 0.0, 0.0, 0.0, 1.0, 0.0, 0.0, 0.0, 0.0, 0.5, 0.5, 0.0, 0.0, 0.0, 1.0,
    ];
    let expected = mul(&mul(&correction, &projection), &inverse(&pose));
    assert_eq!(dec(&camera.transform), expected);
}

#[test]
fn single_static_node() {
    let mut scene = Scene::new(1.0f32.to_bits(), &Floats);
    let root = scene.root();
    let (vertices, indices) = triangle();
    let id = Drawable::new(&mut scene, vertices, indices);
    scene.add_drawable(id);
    let node = Node::new(&mut scene);
    assert!(root.add_child(&mut scene, node));
    node.set_drawable(&mut scene, id);
    scene.update(&Floats);
    assert_eq!(dec(&scene.world_transform(node)), I);
    assert_eq!(scene.drawable(id).cardinality(), 1);
    scene.sync(id);
    assert_eq!(scene.drawable(id).instance_matrices().len(), 1);
    assert_eq!(dec(&scene.drawable(id).instance_matrices()[0]), I);
    assert_eq!(scene.drawable(id).instance_materials()[0], Material::default());
}

#[test]
fn translated_instance() {
    let mut scene = Scene::new(1.0f32.to_bits(), &Floats);
    let root = scene.root();
    let (vertices, indices) = triangle();
    let id = Drawable::new(&mut scene, vertices, indices);
    scene.add_drawable(id);
    let node = Node::new(&mut scene);
    root.add_child(&mut scene, node);
    node.set_drawable(&mut scene, id);
    let local = Floats.translate(&scene.transform(node), &enc3([1.0, 0.0, 0.0]));
    scene.set_transform(node, local);
    assert_eq!(dec(&scene.world_transform(node)), I);
    scene.update(&Floats);
    scene.sync(id);
    let slot = dec(&scene.drawable(id).instance_matrices()[0]);
    assert_eq!([slot[12], slot[13], slot[14]], [1.0, 0.0, 0.0]);
}

#[test]
fn translated_instance_under_moved_parent() {
    let mut scene = Scene::new(1.0f32.to_bits(), &Floats);
    let root = scene.root();
    let (vertices, indices) = triangle();
    let id = Drawable::new(&mut scene, vertices, indices);
    scene.add_drawable(id);
    let parent = Node::new(&mut scene);
    let node = Node::new(&mut scene);
    root.add_child(&mut scene, parent);
    parent.add_child(&mut scene, node);
    node.set_drawable(&mut scene, id);
    scene.set_transform(parent, moved(0.0, 2.0, 0.0));
    scene.set_transform(node, moved(1.0, 0.0, 0.0));
    scene.update(&Floats);
    scene.sync(id);
    let slot = dec(&scene.drawable(id).instance_matrices()[0]);
    assert_eq!([slot[12], slot[13], slot[14]], [1.0, 2.0, 0.0]);
}

#[test]
fn chain_composes_parent_before_child() {
    let mut scene = Scene::new(1.0f32.to_bits(), &Floats);
    let root = scene.root();
    let a = Node::new(&mut scene);
    let b = Node::new(&mut scene);
    root.add_child(&mut scene, a);
    a.add_child(&mut scene, b);
    let mut la = translate(&I, &[1.0, 2.0, 3.0]);
    la[0] = 2.0;
    let lb = translate(&I, &[1.0, 0.0, 0.0]);
    scene.set_transform(a, enc(&la));
    scene.set_transform(b, enc(&lb));
    scene.update(&Floats);
    assert_eq!(dec(&scene.world_transform(root)), I);
    assert_eq!(dec(&scene.world_transform(a)), la);
    assert_eq!(dec(&scene.world_transform(b)), mul(&la, &lb));
    let wb = dec(&scene.world_transform(b));
    assert_eq!([wb[12], wb[13], wb[14]], [3.0, 2.0, 3.0]);
}

#[test]
fn node_update_starts_from_the_given_transform() {
    let mut scene = Scene::new(1.0f32.to_bits(), &Floats);
    let a = Node::new(&mut scene);
    let b = Node::new(&mut scene);
    a.add_child(&mut scene, b);
    scene.set_transform(a, moved(1.0, 0.0, 0.0));
    scene.set_transform(b, moved(0.0, 1.0, 0.0));
    a.update(&mut scene, &moved(0.0, 0.0, 5.0), &Floats);
    let wa = dec(&scene.world_transform(a));
    let wb = dec(&scene.world_transform(b));
    assert_eq!([wa[12], wa[13], wa[14]], [1.0, 0.0, 5.0]);
    assert_eq!([wb[12], wb[13], wb[14]], [1.0, 1.0, 5.0]);
}

#[test]
fn removed_node_keeps_its_world_transform() {
    let mut scene = Scene::new(1.0f32.to_bits(), &Floats);
    let root = scene.root();
    let a = Node::new(&mut scene);
    let b = Node::new(&mut scene);
    root.add_child(&mut scene, a);
    a.add_child(&mut scene, b);
    scene.set_transform(a, moved(1.0, 0.0, 0.0));
    scene.update(&Floats);
    let frozen = scene.world_transform(a);
    let frozen_child = scene.world_transform(b);
    root.remove_child(&mut scene, a);
    assert_eq!(scene.parent(a), None);
    assert!(!scene.children(root).contains(&a));
    assert_eq!(scene.children(a), &vec![b]);
    scene.set_transform(a, moved(9.0, 9.0, 9.0));
    scene.update(&Floats);
    assert_eq!(scene.world_transform(a), frozen);
    assert_eq!(scene.world_transform(b), frozen_child);
    assert_eq!(dec(&frozen)[12], 1.0);
}

#[test]
fn remove_child_of_another_parent_does_nothing() {
    let mut scene = Scene::new(1.0f32.to_bits(), &Floats);
    let root = scene.root();
    let a = Node::new(&mut scene);
    let b = Node::new(&mut scene);
    root.add_child(&mut scene, a);
    root.add_child(&mut scene, b);
    a.remove_child(&mut scene, b);
    assert_eq!(scene.parent(b), Some(root));
    assert!(scene.children(root).contains(&b));
}

#[test]
fn re_parenting() {
    let mut scene = Scene::new(1.0f32.to_bits(), &Floats);
    let root = scene.root();
    let p1 = Node::new(&mut scene);
    let p2 = Node::new(&mut scene);
    let x = Node::new(&mut scene);
    root.add_child(&mut scene, p1);
    root.add_child(&mut scene, p2);
    scene.set_transform(p1, moved(1.0, 0.0, 0.0));
    scene.set_transform(p2, moved(0.0, 1.0, 0.0));
    scene.set_transform(x, moved(0.0, 0.0, 1.0));
    assert!(p1.add_child(&mut scene, x));
    scene.update(&Floats);
    let w = dec(&scene.world_transform(x));
    assert_eq!([w[12], w[13], w[14]], [1.0, 0.0, 1.0]);
    assert!(p2.add_child(&mut scene, x));
    assert!(!scene.children(p1).contains(&x));
    assert!(scene.children(p2).contains(&x));
    assert_eq!(scene.parent(x), Some(p2));
    scene.update(&Floats);
    let w = dec(&scene.world_transform(x));
    assert_eq!([w[12], w[13], w[14]], [0.0, 1.0, 1.0]);
    assert_eq!(
        dec(&scene.world_transform(x)),
        mul(&dec(&scene.world_transform(p2)), &dec(&scene.transform(x)))
    );
}

#[test]
fn adding_a_child_again_moves_it_to_the_end() {
    let mut scene = Scene::new(1.0f32.to_bits(), &Floats);
    let p = Node::new(&mut scene);
    let a = Node::new(&mut scene);
    let b = Node::new(&mut scene);
    p.add_child(&mut scene, a);
    p.add_child(&mut scene, b);
    assert_eq!(scene.children(p), &vec![a, b]);
    assert!(p.add_child(&mut scene, a));
    assert_eq!(scene.children(p), &vec![b, a]);
    assert_eq!(scene.parent(a), Some(p));
}

#[test]
fn a_cycle_is_refused() {
    let mut scene = Scene::new(1.0f32.to_bits(), &Floats);
    let a = Node::new(&mut scene);
    let b = Node::new(&mut scene);
    let c = Node::new(&mut scene);
    assert!(a.add_child(&mut scene, b));
    assert!(b.add_child(&mut scene, c));
    assert!(!c.add_child(&mut scene, a));
    assert!(!a.add_child(&mut scene, a));
    assert!(!b.add_child(&mut scene, a));
    assert_eq!(scene.parent(a), None);
    assert_eq!(scene.parent(b), Some(a));
    assert_eq!(scene.parent(c), Some(b));
    assert_eq!(scene.children(c).len(), 0);
}

#[test]
fn fresh_node_is_alone_at_the_identity() {
    let mut scene = Scene::new(1.0f32.to_bits(), &Floats);
    let n = Node::new(&mut scene);
    assert_eq!(n.id(), 4);
    assert!(scene.contains(n));
    assert!(!scene.contains(Node { id: 5 }));
    assert!(!scene.contains(Node { id: 0 }));
    assert_eq!(scene.parent(n), None);
    assert_eq!(scene.children(n).len(), 0);
    assert_eq!(dec(&scene.transform(n)), I);
    assert_eq!(dec(&scene.world_transform(n)), I);
    assert_eq!(scene.drawable_of(n), None);
    assert_eq!(scene.material(n), None);
}

#[test]
fn set_drawable_registers_once_and_moves_between_pools() {
    let mut scene = Scene::new(1.0f32.to_bits(), &Floats);
    let (vertices, indices) = triangle();
    let first = Drawable::new(&mut scene, vertices.clone(), indices.clone());
    scene.add_drawable(first);
    let second = Drawable::new(&mut scene, vertices, indices);
    scene.add_drawable(second);
    assert_eq!((first, second), (1, 2));
    assert!(scene.has_drawable(2));
    assert!(!scene.has_drawable(3));
    assert!(!scene.has_drawable(0));
    let n = Node::new(&mut scene);
    n.set_drawable(&mut scene, first);
    n.set_drawable(&mut scene, first);
    assert_eq!(scene.drawable(first).cardinality(), 1);
    assert_eq!(scene.drawable_of(n), Some(first));
    assert_eq!(scene.material(n), Some(Material::default()));
    n.set_drawable(&mut scene, second);
    assert_eq!(scene.drawable(first).cardinality(), 0);
    assert_eq!(scene.drawable(second).cardinality(), 1);
    assert_eq!(scene.drawable(second).nodes(), &vec![n]);
    assert_eq!(scene.drawable_of(n), Some(second));
}

#[test]
fn sync_takes_world_transform_and_material() {
    let mut scene = Scene::new(1.0f32.to_bits(), &Floats);
    let root = scene.root();
    let (vertices, indices) = triangle();
    let id = Drawable::new(&mut scene, vertices, indices);
    scene.add_drawable(id);
    let a = Node::new(&mut scene);
    let b = Node::new(&mut scene);
    root.add_child(&mut scene, a);
    root.add_child(&mut scene, b);
    a.set_drawable(&mut scene, id);
    b.set_drawable(&mut scene, id);
    scene.set_transform(a, moved(1.0, 0.0, 0.0));
    scene.set_transform(b, moved(0.0, 1.0, 0.0));
    let red = Material {
        ambient: enc3([1.0, 0.0, 0.0]),
        diffuse: enc3([1.0, 0.0, 0.0]),
        specular: enc3([1.0, 1.0, 1.0]),
        shininess: 2.0f32.to_bits(),
        opacity: 0.5f32.to_bits(),
    };
    scene.set_material(b, Some(red));
    scene.set_material(a, None);
    scene.update(&Floats);
    scene.sync(id);
    let d = scene.drawable(id);
    assert_eq!(d.instance_matrices().len(), 2);
    assert_eq!(d.instance_materials().len(), 2);
    assert_eq!(d.instance_matrices()[0], moved(1.0, 0.0, 0.0));
    assert_eq!(d.instance_matrices()[1], moved(0.0, 1.0, 0.0));
    assert_eq!(d.instance_materials()[0], Material::default());
    assert_eq!(d.instance_materials()[1], red);
}

#[test]
fn camera_resize_changes_the_aspect_term_only() {
    let mut scene = Scene::new(1.0f32.to_bits(), &Floats);
    let before = scene.camera();
    let node = before.node;
    let local = scene.transform(node);
    let world = scene.world_transform(node);
    scene.resize(2.0f32.to_bits(), &Floats);
    let after = scene.camera();
    assert_eq!(f32::from_bits(after.aspect), 2.0);
    assert_eq!(after.node, before.node);
    assert_eq!(after.transform, before.transform);
    assert_eq!(after.fovy, before.fovy);
    assert_eq!(after.znear, before.znear);
    assert_eq!(after.zfar, before.zfar);
    assert_eq!(scene.transform(node), local);
    assert_eq!(scene.world_transform(node), world);
    let p0 = dec(&before.projection);
    let p1 = dec(&after.projection);
    for i in 1..16 {
        assert_eq!(p0[i], p1[i]);
    }
    assert_eq!(p1[0], p0[0] / 2.0);
}

#[test]
fn standalone_camera_resize_and_update() {
    let mut scene = Scene::new(1.0f32.to_bits(), &Floats);
    let root = scene.root();
    let mut camera = Camera::perspective(
        &mut scene,
        &enc3([0.0, 0.0, 3.0]),
        &enc3([0.0, 0.0, 0.0]),
        1.0f32.to_bits(),
        60.0f32.to_bits(),
        0.5f32.to_bits(),
        50.0f32.to_bits(),
        &Floats,
    );
    assert_eq!(camera.node.id(), 4);
    assert_eq!(scene.parent(camera.node), None);
    root.add_child(&mut scene, camera.node);
    scene.set_transform(root, moved(0.0, 4.0, 0.0));
    scene.update(&Floats);
    let kept = camera.projection;
    camera.update(&scene, &Floats);
    assert_eq!(camera.projection, kept);
    let correction = [
        1.0, 0.0, 0.0, 0.0, 0.0, 1.0, 0.0, 0.0, 0.0, 0.0, 0.5, 0.5, 0.0, 0.0, 0.0, 1.0,
    ];
    let world = dec(&scene.world_transform(camera.node));
    let expected = mul(&mul(&correction, &dec(&kept)), &inverse(&world));
    assert_eq!(dec(&camera.transform), expected);
    let view = camera.transform;
    camera.resize(4.0f32.to_bits(), &Floats);
    assert_eq!(camera.transform, view);
    assert_eq!(dec(&camera.projection)[0], dec(&kept)[0] / 4.0);
    scene.set_camera(camera);
    assert_eq!(scene.camera(), camera);
}

#[test]
fn camera_on_a_singular_transform_keeps_it_as_the_view() {
    let mut scene = Scene::new(1.0f32.to_bits(), &Floats);
    let node = scene.camera().node;
    let mut flat = I;
    flat[0] = 0.0;
    scene.set_transform(node, enc(&flat));
    scene.update(&Floats);
    scene.update_camera(&Floats);
    let camera = scene.camera();
    let correction = [
        1.0, 0.0, 0.0, 0.0, 0.0, 1.0, 0.0, 0.0, 0.0, 0.0, 0.5, 0.5, 0.0, 0.0, 0.0, 1.0,
    ];
    let expected = mul(&mul(&correction, &dec(&camera.projection)), &flat);
    assert_eq!(dec(&camera.transform), expected);
}

#[test]
fn inverse_round_trip() {
    let mut m = translate(&I, &[1.0, -2.0, 3.0]);
    m[0] = 2.0;
    m[5] = 0.5;
    m[10] = 4.0;
    m[4] = 0.25;
    let back = inverse(&inverse(&m));
    assert!(close(&back, &m, 1e-4));
    assert!(close(&mul(&m, &inverse(&m)), &I, 1e-4));
    let twice = Floats.inverse(&Floats.inverse(&enc(&m)));
    assert!(close(&dec(&twice), &m, 1e-4));
}

#[test]
fn translate_camera_moves_the_local_transform() {
    let mut scene = Scene::new(1.0f32.to_bits(), &Floats);
    let node = scene.camera().node;
    let before = dec(&scene.transform(node));
    scene.translate_camera(&enc3([0.1, 0.0, 0.0]), &Floats);
    assert_eq!(dec(&scene.transform(node)), translate(&before, &[0.1, 0.0, 0.0]));
    assert_eq!(dec(&scene.world_transform(node)), I);
}

#[test]
fn light_defaults() {
    let mut scene = Scene::new(1.0f32.to_bits(), &Floats);
    let light = Light::new(&mut scene);
    assert_eq!(light.node.id(), 4);
    assert_eq!(light.target, None);
    assert_eq!(f32::from_bits(light.size), 40.0);
    assert_eq!(light.raw.kind, 3);
    assert_eq!(f32::from_bits(light.raw.cut_off), 0.35);
    assert_eq!(dec3(&light.raw.position), [0.0, 0.0, 0.0]);
    assert_eq!(dec3(&light.raw.dir), [0.0, 0.0, 0.0]);
    assert_eq!(dec3(&light.raw.ambient), [1.0, 1.0, 1.0]);
    assert_eq!(dec3(&light.raw.diffuse), [1.0, 1.0, 1.0]);
    assert_eq!(dec3(&light.raw.specular), [1.0, 1.0, 1.0]);
    assert_eq!(dec3(&light.raw.attenutation), [1.0, 0.5, 0.0]);
    assert_eq!(scene.lights()[0], Light { node: Node { id: 3 }, ..light });
}

#[test]
fn light_projection_is_the_orthographic_one() {
    let mut scene = Scene::new(1.0f32.to_bits(), &Floats);
    let light = Light::new(&mut scene);
    let size = 40.0f32;
    let (top, bottom, left, right, near, far) = (-size, size, -size, size, 0.01f32, 20.5f32);
    let mut md = I;
    md[0] = 2.0 / (right - left);
    md[5] = 2.0 / (top - bottom);
    md[10] = -2.0 / (far - near);
    md[12] = -(right + left) / (right - left);
    md[13] = -(top + bottom) / (top - bottom);
    md[14] = -(far + near) / (far - near);
    md[15] = 1.0;
    assert_eq!(light.projection, enc(&md));
}

#[test]
fn light_update_takes_the_translation() {
    let mut scene = Scene::new(1.0f32.to_bits(), &Floats);
    let node = scene.lights()[0].node;
    scene.set_transform(node, moved(3.0, 4.0, 5.0));
    scene.update(&Floats);
    scene.update_lights();
    let light = scene.lights()[0];
    assert_eq!(dec3(&light.raw.position), [3.0, 4.0, 5.0]);
    assert_eq!(light.raw.kind, 3);
    let mut alone = Light::new(&mut scene);
    scene.set_transform(alone.node, moved(1.0, 1.0, 1.0));
    alone.update(&scene);
    assert_eq!(dec3(&alone.raw.position), [0.0, 0.0, 0.0]);
    scene.add_light(alone);
    assert_eq!(scene.lights().len(), 2);
}

#[test]
fn render_issues_one_call_per_pool_that_is_not_empty() {
    let mut scene = Scene::new(1.0f32.to_bits(), &Floats);
    let root = scene.root();
    let (vertices, indices) = triangle();
    let empty = Drawable::new(&mut scene, vertices.clone(), indices.clone());
    scene.add_drawable(empty);
    let full = Drawable::new(&mut scene, vertices, vec![0, 1, 2, 2, 1, 0]);
    scene.add_drawable(full);
    let a = Node::new(&mut scene);
    let b = Node::new(&mut scene);
    root.add_child(&mut scene, a);
    root.add_child(&mut scene, b);
    a.set_drawable(&mut scene, full);
    b.set_drawable(&mut scene, full);
    scene.set_transform(a, moved(1.0, 0.0, 0.0));
    scene.update(&Floats);
    let mut ctx = RenderContext::new(800, 600);
    assert_eq!(dec(&ctx.camera.view_proj), I);
    let calls = ctx.render(&mut scene, &Floats, true);
    assert_eq!(calls, vec![DrawCall { drawable: full, index_count: 6, instance_count: 2 }]);
    assert_eq!(ctx.camera.view_proj, scene.camera().transform);
    assert_eq!(scene.drawable(full).instance_matrices()[0], moved(1.0, 0.0, 0.0));
    assert_eq!(scene.drawable(empty).cardinality(), 0);
}

#[test]
fn render_without_a_surface_skips_the_frame() {
    let mut scene = Scene::new(1.0f32.to_bits(), &Floats);
    let root = scene.root();
    let (vertices, indices) = triangle();
    let id = Drawable::new(&mut scene, vertices, indices);
    scene.add_drawable(id);
    let a = Node::new(&mut scene);
    root.add_child(&mut scene, a);
    a.set_drawable(&mut scene, id);
    scene.set_transform(a, moved(1.0, 0.0, 0.0));
    scene.update(&Floats);
    let mut ctx = RenderContext::new(800, 600);
    let calls = ctx.render(&mut scene, &Floats, false);
    assert!(calls.is_empty());
    assert_eq!(dec(&scene.drawable(id).instance_matrices()[0]), I);
    assert_eq!(ctx.camera.view_proj, scene.camera().transform);
}

#[test]
fn render_context_ignores_an_empty_size() {
    let mut ctx = RenderContext::new(800, 600);
    assert!(!ctx.resize(0, 10));
    assert!(!ctx.resize(10, 0));
    assert_eq!((ctx.width, ctx.height), (800, 600));
    assert!(ctx.resize(1024, 768));
    assert_eq!((ctx.width, ctx.height), (1024, 768));
    assert_eq!(ctx.lights.len(), 10);
    assert_eq!(ctx.lights[9], Light::setup()[0]);
    assert_eq!(ctx.camera, Camera::setup());
}

#[test]
fn add_mesh_registers_a_drawable_and_attaches_its_instance() {
    let mut scene = Scene::new(1.0f32.to_bits(), &Floats);
    let root = scene.root();
    let (vertices, indices) = triangle();
    let (id, node) = scene.add_mesh(vertices.clone(), indices.clone());
    assert_eq!((id, node.id()), (1, 4));
    assert!(scene.drawable(id).is_registered());
    assert_eq!(scene.parent(node), Some(root));
    assert_eq!(scene.children(root).last(), Some(&node));
    assert_eq!(scene.drawable_of(node), Some(id));
    assert_eq!(scene.material(node), Some(Material::default()));
    let d = scene.drawable(id);
    assert_eq!(d.id(), 1);
    assert_eq!(d.nodes(), &vec![node]);
    assert_eq!(d.vertices(), &vertices);
    assert_eq!(d.indices(), &indices);
    assert_eq!(d.instance_buffer(), 64);
    assert_eq!(d.instance_material_buffer(), 44);
    let (second, other) = scene.add_mesh(vertices, indices);
    assert_eq!((second, other.id()), (2, 5));
    assert_eq!(scene.drawable(id).cardinality(), 1);
    assert_eq!(scene.drawable(second).nodes(), &vec![other]);
}

#[test]
fn the_root_takes_no_parent() {
    let mut scene = Scene::new(1.0f32.to_bits(), &Floats);
    let root = scene.root();
    let n = Node::new(&mut scene);
    assert!(!n.add_child(&mut scene, root));
    assert_eq!(scene.parent(root), None);
    assert_eq!(scene.children(n).len(), 0);
    let camera = scene.camera().node;
    assert!(!camera.add_child(&mut scene, root));
    assert_eq!(scene.parent(root), None);
    assert_eq!(scene.children(root).len(), 2);
}

#[test]
fn every_drawable_gets_an_identity_of_its_own() {
    let mut scene = Scene::new(1.0f32.to_bits(), &Floats);
    let (vertices, indices) = triangle();
    let first = Drawable::new(&mut scene, vertices.clone(), indices.clone());
    let second = Drawable::new(&mut scene, vertices.clone(), indices.clone());
    let third = Drawable::new(&mut scene, vertices, indices);
    assert_eq!((first, second, third), (1, 2, 3));
    assert_eq!(scene.drawable(first).id(), 1);
    assert_eq!(scene.drawable(second).id(), 2);
    assert_eq!(scene.drawable(third).id(), 3);
    assert_eq!(scene.drawable_count(), 3);
    assert!(!scene.drawable(second).is_registered());
    scene.add_drawable(second);
    scene.add_drawable(second);
    assert!(scene.drawable(second).is_registered());
    assert!(!scene.drawable(first).is_registered());
    assert_eq!(scene.drawable_count(), 3);
}

#[test]
fn a_drawable_that_is_not_registered_is_not_drawn() {
    let mut scene = Scene::new(1.0f32.to_bits(), &Floats);
    let root = scene.root();
    let (vertices, indices) = triangle();
    let hidden = Drawable::new(&mut scene, vertices.clone(), indices.clone());
    let shown = Drawable::new(&mut scene, vertices, indices);
    scene.add_drawable(shown);
    let a = Node::new(&mut scene);
    let b = Node::new(&mut scene);
    root.add_child(&mut scene, a);
    root.add_child(&mut scene, b);
    a.set_drawable(&mut scene, hidden);
    b.set_drawable(&mut scene, shown);
    scene.set_transform(a, moved(1.0, 0.0, 0.0));
    scene.set_transform(b, moved(2.0, 0.0, 0.0));
    scene.update(&Floats);
    let mut ctx = RenderContext::new(800, 600);
    let calls = ctx.render(&mut scene, &Floats, true);
    assert_eq!(calls, vec![DrawCall { drawable: shown, index_count: 3, instance_count: 1 }]);
    assert_eq!(dec(&scene.drawable(hidden).instance_matrices()[0]), I);
    assert_eq!(scene.drawable(shown).instance_matrices()[0], moved(2.0, 0.0, 0.0));
}

#[test]
fn the_first_srgb_format_is_picked() {
    assert_eq!(pick_format(&vec![false, true, true]), 1);
    assert_eq!(pick_format(&vec![true, false]), 0);
    assert_eq!(pick_format(&vec![false, false, false]), 0);
    assert_eq!(pick_format(&vec![false, false, true]), 2);
    assert_eq!(pick_format(&vec![false]), 0);
}
