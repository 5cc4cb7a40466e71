use laylay::math::matrix;

#[test]
fn new_is_identity() {
    let m = matrix::new();
    for (i, v) in m.iter().enumerate() {
        let expect: f32 = if i % 5 == 0 { 1.0 } else { 0.0 };
        assert_eq!(f32::from_bits(*v), expect);
    }
    assert_eq!(m, matrix::IDENTITY);
}

#[test]
fn constants_are_the_bit_patterns() {
    assert_eq!(matrix::ZERO, 0.0f32.to_bits());
    assert_eq!(matrix::ONE, 1.0f32.to_bits());
    assert_eq!(matrix::HALF, 0.5f32.to_bits());
}

#[test]
fn identity_overwrites_every_entry() {
    let mut m = [7.5f32.to_bits(); 16];
    matrix::identity(&mut m);
    assert_eq!(m, matrix::new());
}

#[test]
fn transpose_mirrors_at_the_diagonal() {
    let mut m = [0u32; 16];
    for i in 0..16 {
        m[i] = (i as f32).to_bits();
    }
    let before = m;
    matrix::transpose(&mut m);
    for column in 0..4 {
        for row in 0..4 {
            assert_eq!(m[column * 4 + row], before[row * 4 + column]);
        }
    }
    assert_eq!(f32::from_bits(m[1]), 4.0);
    assert_eq!(f32::from_bits(m[14]), 11.0);
    matrix::transpose(&mut m);
    assert_eq!(m, before);
}
