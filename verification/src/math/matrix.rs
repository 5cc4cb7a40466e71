//! 4x4 column-major transforms as sixteen binary32 bit patterns.
use vstd::prelude::*;

verus! {

/// The bit pattern of one binary32 number.
pub type Scalar = u32;

/// A 3-vector.
pub type Vector = [Scalar; 3];

/// A 4x4 transform in column-major order: entry `4 * column + row`.
pub type Matrix = [Scalar; 16];

/// The bit pattern of zero.
pub const ZERO: Scalar = 0;

/// The bit pattern of one.
pub const ONE: Scalar = 0x3f80_0000;

/// The bit pattern of one half.
pub const HALF: Scalar = 0x3f00_0000;

/// The identity transform.
pub const IDENTITY: Matrix = [
    ONE, ZERO, ZERO, ZERO,
    ZERO, ONE, ZERO, ZERO,
    ZERO, ZERO, ONE, ZERO,
    ZERO, ZERO, ZERO, ONE,
];

/// The entries of the identity transform.
pub open spec fn identity_entries() -> Seq<Scalar> {
    seq![
        ONE, ZERO, ZERO, ZERO,
        ZERO, ONE, ZERO, ZERO,
        ZERO, ZERO, ONE, ZERO,
        ZERO, ZERO, ZERO, ONE,
    ]
}

/// The entries of `s` mirrored at the diagonal.
pub open spec fn transposed(s: Seq<Scalar>) -> Seq<Scalar> {
    Seq::new(16, |i: int| s[(i % 4) * 4 + i / 4])
}

/// A fresh identity transform.
pub fn new() -> (m: Matrix)
    ensures
        m == IDENTITY,
        m@ == identity_entries(),
{
    let m: Matrix = IDENTITY;
    m
}

/// Overwrites `m` with the identity transform.
pub fn identity(m: &mut Matrix)
    ensures
        *final(m) == IDENTITY,
        final(m)@ == identity_entries(),
{
    *m = new();
}

/// Mirrors `m` at its diagonal, in place.
pub fn transpose(m: &mut Matrix)
    ensures
        final(m)@ == transposed(old(m)@),
{
    let ghost before = m@;
    let t: Scalar = m[1];
    m[1] = m[4];
    m[4] = t;
    let t: Scalar = m[2];
    m[2] = m[8];
    m[8] = t;
    let t: Scalar = m[3];
    m[3] = m[12];
    m[12] = t;
    let t: Scalar = m[6];
    m[6] = m[9];
    m[9] = t;
    let t: Scalar = m[7];
    m[7] = m[13];
    m[13] = t;
    let t: Scalar = m[11];
    m[11] = m[14];
    m[14] = t;
}

/// Transposing twice gives the transform back.
pub proof fn lemma_transpose_involution(s: Seq<Scalar>)
    requires
        s.len() == 16,
    ensures
        transposed(transposed(s)) == s,
{
}

/// The arithmetic on scalars and transforms that the scene needs and that
/// the library itself cannot perform. Nothing is assumed of an
/// implementation: every contract that involves one of these calls says
/// which arguments were handed over and that the stored value is what came
/// back.
pub trait Arithmetic {
    /// The quotient of two whole numbers: `width / height`.
    fn ratio(&self, width: u32, height: u32) -> Scalar;

    /// The product `m * o`: `o` is applied first, then `m`.
    fn product(&self, m: &Matrix, o: &Matrix) -> Matrix;

    /// The inverse of `m`; `m` itself where it has none.
    fn inverse(&self, m: &Matrix) -> Matrix;

    /// `m` with the terms of a perspective projection written over it.
    fn perspective(
        &self,
        m: &Matrix,
        fovy: Scalar,
        aspect: Scalar,
        znear: Scalar,
        zfar: Scalar,
    ) -> Matrix;

    /// `m` moved by `v`.
    fn translate(&self, m: &Matrix, v: &Vector) -> Matrix;

    /// `m`, whose translation is the eye position, turned towards `lookat`.
    fn look_at(&self, m: &Matrix, lookat: &Vector, up: &Vector) -> Matrix;
}

/// `r` is what `math` returned for the quotient `width / height`.
pub open spec fn is_ratio<M: Arithmetic>(math: &M, width: u32, height: u32, r: Scalar) -> bool {
    call_ensures(M::ratio, (math, width, height), r)
}

/// `r` is what `math` returned for the product `m * o`.
pub open spec fn is_product<M: Arithmetic>(math: &M, m: Matrix, o: Matrix, r: Matrix) -> bool {
    call_ensures(M::product, (math, &m, &o), r)
}

/// `r` is what `math` returned for the inverse of `m`.
pub open spec fn is_inverse<M: Arithmetic>(math: &M, m: Matrix, r: Matrix) -> bool {
    call_ensures(M::inverse, (math, &m), r)
}

/// `r` is what `math` returned for the projection written over `m`.
pub open spec fn is_perspective<M: Arithmetic>(
    math: &M,
    m: Matrix,
    fovy: Scalar,
    aspect: Scalar,
    znear: Scalar,
    zfar: Scalar,
    r: Matrix,
) -> bool {
    call_ensures(M::perspective, (math, &m, fovy, aspect, znear, zfar), r)
}

/// `r` is what `math` returned for `m` moved by `v`.
pub open spec fn is_translate<M: Arithmetic>(math: &M, m: Matrix, v: Vector, r: Matrix) -> bool {
    call_ensures(M::translate, (math, &m, &v), r)
}

/// `r` is what `math` returned for `m` turned towards `lookat`.
pub open spec fn is_look_at<M: Arithmetic>(
    math: &M,
    m: Matrix,
    lookat: Vector,
    up: Vector,
    r: Matrix,
) -> bool {
    call_ensures(M::look_at, (math, &m, &lookat, &up), r)
}

} // verus!
