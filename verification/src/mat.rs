//! Fixed-point 4x4 matrices and 3-vectors: the representation in which the
//! scene-graph transform pipeline is computed and specified.
use vstd::prelude::*;
use crate::fixed::{SCALE, div_s, lemma_div_s_mul, lemma_div_s_bound, div_fix, sin_fx_spec,
    cos_fx_spec, sin_fx, cos_fx};

verus! {

/// Bound on the components of node transform parameters (positions, pivots,
/// scales), about two to the thirtieth: real values up to sixteen thousand.
pub const PARAM_LIM: i64 = 0x4000_0000;

/// Bound on rotation angles in fixed-point radians; wide enough for any
/// accumulated animation angle while keeping negation well defined.
pub const ANGLE_LIM: i64 = 0x4000_0000_0000_0000;

/// Bound within which accumulated transforms are kept during traversal.
pub const TRAVERSE_LIM: i64 = 0x40_0000_0000;

/// Bound that the local matrix of a well-formed node is guaranteed to satisfy.
pub const LOCAL_LIM: i64 = 0x40_0000_0000_0000;

/// Mathematical model of a 3-vector: three unbounded integers on the
/// fixed-point grid.
#[verifier::ext_equal]
pub ghost struct Vm {
    pub x: int,
    pub y: int,
    pub z: int,
}

/// A fixed-point 3-vector.
#[derive(Clone, Copy)]
pub struct V3 {
    pub x: i64,
    pub y: i64,
    pub z: i64,
}

impl View for V3 {
    type V = Vm;

    open spec fn view(&self) -> Vm {
        Vm { x: self.x as int, y: self.y as int, z: self.z as int }
    }
}

pub open spec fn vm_bounded(v: Vm, b: int) -> bool {
    &&& -b <= v.x <= b
    &&& -b <= v.y <= b
    &&& -b <= v.z <= b
}

pub open spec fn vm_neg(v: Vm) -> Vm {
    Vm { x: -v.x, y: -v.y, z: -v.z }
}

pub open spec fn vm_add(a: Vm, b: Vm) -> Vm {
    Vm { x: a.x + b.x, y: a.y + b.y, z: a.z + b.z }
}

/// The zero vector.
pub open spec fn vm_zero() -> Vm {
    Vm { x: 0, y: 0, z: 0 }
}

/// The unit scale vector: one in every component.
pub open spec fn vm_unit() -> Vm {
    Vm { x: SCALE as int, y: SCALE as int, z: SCALE as int }
}

impl V3 {
    /// Build a vector from raw fixed-point components.
    pub fn new(x: i64, y: i64, z: i64) -> (r: V3)
        ensures
            r@ == (Vm { x: x as int, y: y as int, z: z as int }),
    {
        V3 { x, y, z }
    }

    /// The zero vector.
    pub fn zero() -> (r: V3)
        ensures
            r@ == vm_zero(),
    {
        V3 { x: 0, y: 0, z: 0 }
    }

    /// The unit scale vector.
    pub fn unit() -> (r: V3)
        ensures
            r@ == vm_unit(),
    {
        V3 { x: SCALE, y: SCALE, z: SCALE }
    }

    /// Componentwise negation.
    pub fn neg(&self) -> (r: V3)
        requires
            vm_bounded(self@, PARAM_LIM as int),
        ensures
            r@ == vm_neg(self@),
            vm_bounded(r@, PARAM_LIM as int),
    {
        V3 { x: -self.x, y: -self.y, z: -self.z }
    }
}

/// Mathematical model of a 4x4 matrix: sixteen unbounded integers on the
/// fixed-point grid, row by row.
#[verifier::ext_equal]
pub ghost struct Mm {
    pub m00: int, pub m01: int, pub m02: int, pub m03: int,
    pub m10: int, pub m11: int, pub m12: int, pub m13: int,
    pub m20: int, pub m21: int, pub m22: int, pub m23: int,
    pub m30: int, pub m31: int, pub m32: int, pub m33: int,
}

/// A fixed-point 4x4 matrix, row major.
#[derive(Clone, Copy)]
pub struct Mat4 {
    pub m00: i64, pub m01: i64, pub m02: i64, pub m03: i64,
    pub m10: i64, pub m11: i64, pub m12: i64, pub m13: i64,
    pub m20: i64, pub m21: i64, pub m22: i64, pub m23: i64,
    pub m30: i64, pub m31: i64, pub m32: i64, pub m33: i64,
}

impl View for Mat4 {
    type V = Mm;

    open spec fn view(&self) -> Mm {
        Mm {
            m00: self.m00 as int, m01: self.m01 as int, m02: self.m02 as int, m03: self.m03 as int,
            m10: self.m10 as int, m11: self.m11 as int, m12: self.m12 as int, m13: self.m13 as int,
            m20: self.m20 as int, m21: self.m21 as int, m22: self.m22 as int, m23: self.m23 as int,
            m30: self.m30 as int, m31: self.m31 as int, m32: self.m32 as int, m33: self.m33 as int,
        }
    }
}

/// Every entry has magnitude at most `b`.
pub open spec fn mm_bounded(m: Mm, b: int) -> bool {
    &&& -b <= m.m00 <= b && -b <= m.m01 <= b && -b <= m.m02 <= b && -b <= m.m03 <= b
    &&& -b <= m.m10 <= b && -b <= m.m11 <= b && -b <= m.m12 <= b && -b <= m.m13 <= b
    &&& -b <= m.m20 <= b && -b <= m.m21 <= b && -b <= m.m22 <= b && -b <= m.m23 <= b
    &&& -b <= m.m30 <= b && -b <= m.m31 <= b && -b <= m.m32 <= b && -b <= m.m33 <= b
}

/// The bottom row is `(0, 0, 0, 1)`: the matrix maps points to points.
pub open spec fn affine_mm(m: Mm) -> bool {
    m.m30 == 0 && m.m31 == 0 && m.m32 == 0 && m.m33 == SCALE as int
}

/// The identity matrix.
pub open spec fn id_mm() -> Mm {
    Mm {
        m00: SCALE as int, m01: 0, m02: 0, m03: 0,
        m10: 0, m11: SCALE as int, m12: 0, m13: 0,
        m20: 0, m21: 0, m22: SCALE as int, m23: 0,
        m30: 0, m31: 0, m32: 0, m33: SCALE as int,
    }
}

/// Translation by `v`.
pub open spec fn translate_mm(v: Vm) -> Mm {
    Mm {
        m00: SCALE as int, m01: 0, m02: 0, m03: v.x,
        m10: 0, m11: SCALE as int, m12: 0, m13: v.y,
        m20: 0, m21: 0, m22: SCALE as int, m23: v.z,
        m30: 0, m31: 0, m32: 0, m33: SCALE as int,
    }
}

/// Scaling by `v`, componentwise about the origin.
pub open spec fn scale_mm(v: Vm) -> Mm {
    Mm {
        m00: v.x, m01: 0, m02: 0, m03: 0,
        m10: 0, m11: v.y, m12: 0, m13: 0,
        m20: 0, m21: 0, m22: v.z, m23: 0,
        m30: 0, m31: 0, m32: 0, m33: SCALE as int,
    }
}

/// Rotation about the x axis by angle `a` in fixed-point radians.
pub open spec fn rotx_mm(a: int) -> Mm {
    let s = sin_fx_spec(a);
    let c = cos_fx_spec(a);
    Mm {
        m00: SCALE as int, m01: 0, m02: 0, m03: 0,
        m10: 0, m11: c, m12: -s, m13: 0,
        m20: 0, m21: s, m22: c, m23: 0,
        m30: 0, m31: 0, m32: 0, m33: SCALE as int,
    }
}

/// Rotation about the y axis by angle `a` in fixed-point radians.
pub open spec fn roty_mm(a: int) -> Mm {
    let s = sin_fx_spec(a);
    let c = cos_fx_spec(a);
    Mm {
        m00: c, m01: 0, m02: s, m03: 0,
        m10: 0, m11: SCALE as int, m12: 0, m13: 0,
        m20: -s, m21: 0, m22: c, m23: 0,
        m30: 0, m31: 0, m32: 0, m33: SCALE as int,
    }
}

/// Rotation about the z axis by angle `a` in fixed-point radians.
pub open spec fn rotz_mm(a: int) -> Mm {
    let s = sin_fx_spec(a);
    let c = cos_fx_spec(a);
    Mm {
        m00: c, m01: -s, m02: 0, m03: 0,
        m10: s, m11: c, m12: 0, m13: 0,
        m20: 0, m21: 0, m22: SCALE as int, m23: 0,
        m30: 0, m31: 0, m32: 0, m33: SCALE as int,
    }
}

/// Matrix product on the fixed-point grid: each entry is the exact integer
/// dot product rescaled by `SCALE`, truncating toward zero.
pub open spec fn mul_mm(a: Mm, b: Mm) -> Mm {
    Mm {
        m00: div_s(a.m00 * b.m00 + a.m01 * b.m10 + a.m02 * b.m20 + a.m03 * b.m30),
        m01: div_s(a.m00 * b.m01 + a.m01 * b.m11 + a.m02 * b.m21 + a.m03 * b.m31),
        m02: div_s(a.m00 * b.m02 + a.m01 * b.m12 + a.m02 * b.m22 + a.m03 * b.m32),
        m03: div_s(a.m00 * b.m03 + a.m01 * b.m13 + a.m02 * b.m23 + a.m03 * b.m33),
        m10: div_s(a.m10 * b.m00 + a.m11 * b.m10 + a.m12 * b.m20 + a.m13 * b.m30),
        m11: div_s(a.m10 * b.m01 + a.m11 * b.m11 + a.m12 * b.m21 + a.m13 * b.m31),
        m12: div_s(a.m10 * b.m02 + a.m11 * b.m12 + a.m12 * b.m22 + a.m13 * b.m32),
        m13: div_s(a.m10 * b.m03 + a.m11 * b.m13 + a.m12 * b.m23 + a.m13 * b.m33),
        m20: div_s(a.m20 * b.m00 + a.m21 * b.m10 + a.m22 * b.m20 + a.m23 * b.m30),
        m21: div_s(a.m20 * b.m01 + a.m21 * b.m11 + a.m22 * b.m21 + a.m23 * b.m31),
        m22: div_s(a.m20 * b.m02 + a.m21 * b.m12 + a.m22 * b.m22 + a.m23 * b.m32),
        m23: div_s(a.m20 * b.m03 + a.m21 * b.m13 + a.m22 * b.m23 + a.m23 * b.m33),
        m30: div_s(a.m30 * b.m00 + a.m31 * b.m10 + a.m32 * b.m20 + a.m33 * b.m30),
        m31: div_s(a.m30 * b.m01 + a.m31 * b.m11 + a.m32 * b.m21 + a.m33 * b.m31),
        m32: div_s(a.m30 * b.m02 + a.m31 * b.m12 + a.m32 * b.m22 + a.m33 * b.m32),
        m33: div_s(a.m30 * b.m03 + a.m31 * b.m13 + a.m32 * b.m23 + a.m33 * b.m33),
    }
}

/// Apply an affine matrix to a point (homogeneous coordinate one).
pub open spec fn apply_mm(m: Mm, v: Vm) -> Vm {
    Vm {
        x: div_s(m.m00 * v.x + m.m01 * v.y + m.m02 * v.z + m.m03 * (SCALE as int)),
        y: div_s(m.m10 * v.x + m.m11 * v.y + m.m12 * v.z + m.m13 * (SCALE as int)),
        z: div_s(m.m20 * v.x + m.m21 * v.y + m.m22 * v.z + m.m23 * (SCALE as int)),
    }
}

/// Exact rescaled dot product of two rows of four, with ghost magnitude
/// bounds that discharge the overflow conditions.
fn dot4(
    a0: i64, a1: i64, a2: i64, a3: i64,
    b0: i64, b1: i64, b2: i64, b3: i64,
    Ghost(ba): Ghost<int>, Ghost(bb): Ghost<int>,
) -> (r: i64)
    requires
        0 <= ba,
        0 <= bb,
        -ba <= a0 as int <= ba, -ba <= a1 as int <= ba,
        -ba <= a2 as int <= ba, -ba <= a3 as int <= ba,
        -bb <= b0 as int <= bb, -bb <= b1 as int <= bb,
        -bb <= b2 as int <= bb, -bb <= b3 as int <= bb,
        ba * bb <= 0x1000_0000_0000_0000_0000,
    ensures
        r as int == div_s(
            a0 as int * b0 as int + a1 as int * b1 as int + a2 as int * b2 as int + a3 as int
                * b3 as int,
        ),
        -((4 * ba * bb) / (SCALE as int)) <= r as int <= (4 * ba * bb) / (SCALE as int),
{
    assert(0 <= ba * bb
        && -(ba * bb) <= (a0 as int) * (b0 as int) <= ba * bb
        && -(ba * bb) <= (a1 as int) * (b1 as int) <= ba * bb
        && -(ba * bb) <= (a2 as int) * (b2 as int) <= ba * bb
        && -(ba * bb) <= (a3 as int) * (b3 as int) <= ba * bb) by (nonlinear_arith)
        requires
            0 <= ba,
            0 <= bb,
            -ba <= a0 as int <= ba, -ba <= a1 as int <= ba,
            -ba <= a2 as int <= ba, -ba <= a3 as int <= ba,
            -bb <= b0 as int <= bb, -bb <= b1 as int <= bb,
            -bb <= b2 as int <= bb, -bb <= b3 as int <= bb,
    ;
    let s: i128 = (a0 as i128) * (b0 as i128) + (a1 as i128) * (b1 as i128) + (a2 as i128) * (
    b2 as i128) + (a3 as i128) * (b3 as i128);
    proof {
        assert(s as int == a0 as int * (b0 as int) + a1 as int * (b1 as int) + a2 as int * (
        b2 as int) + a3 as int * (b3 as int));
    }
    let r: i64 = div_fix(s);
    proof {
        assert(4 * (ba * bb) == 4 * ba * bb) by (nonlinear_arith);
        lemma_div_s_bound(s as int, 4 * ba * bb);
    }
    r
}

/// The identity matrix.
pub fn mat_identity() -> (r: Mat4)
    ensures
        r@ == id_mm(),
        mm_bounded(r@, SCALE as int),
        affine_mm(r@),
{
    Mat4 {
        m00: SCALE, m01: 0, m02: 0, m03: 0,
        m10: 0, m11: SCALE, m12: 0, m13: 0,
        m20: 0, m21: 0, m22: SCALE, m23: 0,
        m30: 0, m31: 0, m32: 0, m33: SCALE,
    }
}

/// Translation by `v`.
pub fn mat_translate(v: &V3) -> (r: Mat4)
    requires
        vm_bounded(v@, PARAM_LIM as int),
    ensures
        r@ == translate_mm(v@),
        mm_bounded(r@, PARAM_LIM as int),
        affine_mm(r@),
{
    Mat4 {
        m00: SCALE, m01: 0, m02: 0, m03: v.x,
        m10: 0, m11: SCALE, m12: 0, m13: v.y,
        m20: 0, m21: 0, m22: SCALE, m23: v.z,
        m30: 0, m31: 0, m32: 0, m33: SCALE,
    }
}

/// Scaling by `v` about the origin.
pub fn mat_scale(v: &V3) -> (r: Mat4)
    requires
        vm_bounded(v@, PARAM_LIM as int),
    ensures
        r@ == scale_mm(v@),
        mm_bounded(r@, PARAM_LIM as int),
        affine_mm(r@),
{
    Mat4 {
        m00: v.x, m01: 0, m02: 0, m03: 0,
        m10: 0, m11: v.y, m12: 0, m13: 0,
        m20: 0, m21: 0, m22: v.z, m23: 0,
        m30: 0, m31: 0, m32: 0, m33: SCALE,
    }
}

/// Rotation about the x axis.
pub fn mat_rot_x(a: i64) -> (r: Mat4)
    requires
        a != i64::MIN,
    ensures
        r@ == rotx_mm(a as int),
        mm_bounded(r@, SCALE as int),
        affine_mm(r@),
{
    let s: i64 = sin_fx(a);
    let c: i64 = cos_fx(a);
    Mat4 {
        m00: SCALE, m01: 0, m02: 0, m03: 0,
        m10: 0, m11: c, m12: -s, m13: 0,
        m20: 0, m21: s, m22: c, m23: 0,
        m30: 0, m31: 0, m32: 0, m33: SCALE,
    }
}

/// Rotation about the y axis.
pub fn mat_rot_y(a: i64) -> (r: Mat4)
    requires
        a != i64::MIN,
    ensures
        r@ == roty_mm(a as int),
        mm_bounded(r@, SCALE as int),
        affine_mm(r@),
{
    let s: i64 = sin_fx(a);
    let c: i64 = cos_fx(a);
    Mat4 {
        m00: c, m01: 0, m02: s, m03: 0,
        m10: 0, m11: SCALE, m12: 0, m13: 0,
        m20: -s, m21: 0, m22: c, m23: 0,
        m30: 0, m31: 0, m32: 0, m33: SCALE,
    }
}

/// Rotation about the z axis.
pub fn mat_rot_z(a: i64) -> (r: Mat4)
    requires
        a != i64::MIN,
    ensures
        r@ == rotz_mm(a as int),
        mm_bounded(r@, SCALE as int),
        affine_mm(r@),
{
    let s: i64 = sin_fx(a);
    let c: i64 = cos_fx(a);
    Mat4 {
        m00: c, m01: -s, m02: 0, m03: 0,
        m10: s, m11: c, m12: 0, m13: 0,
        m20: 0, m21: 0, m22: SCALE, m23: 0,
        m30: 0, m31: 0, m32: 0, m33: SCALE,
    }
}

/// Matrix product. The ghost bounds of the operands discharge overflow and
/// give the bound of the result.
pub fn mat_mul(a: &Mat4, b: &Mat4, Ghost(ba): Ghost<int>, Ghost(bb): Ghost<int>) -> (r: Mat4)
    requires
        0 <= ba,
        0 <= bb,
        mm_bounded(a@, ba),
        mm_bounded(b@, bb),
        ba * bb <= 0x1000_0000_0000_0000_0000,
    ensures
        r@ == mul_mm(a@, b@),
        mm_bounded(r@, (4 * ba * bb) / (SCALE as int)),
{
    let r = Mat4 {
        m00: dot4(a.m00, a.m01, a.m02, a.m03, b.m00, b.m10, b.m20, b.m30, Ghost(ba), Ghost(bb)),
        m01: dot4(a.m00, a.m01, a.m02, a.m03, b.m01, b.m11, b.m21, b.m31, Ghost(ba), Ghost(bb)),
        m02: dot4(a.m00, a.m01, a.m02, a.m03, b.m02, b.m12, b.m22, b.m32, Ghost(ba), Ghost(bb)),
        m03: dot4(a.m00, a.m01, a.m02, a.m03, b.m03, b.m13, b.m23, b.m33, Ghost(ba), Ghost(bb)),
        m10: dot4(a.m10, a.m11, a.m12, a.m13, b.m00, b.m10, b.m20, b.m30, Ghost(ba), Ghost(bb)),
        m11: dot4(a.m10, a.m11, a.m12, a.m13, b.m01, b.m11, b.m21, b.m31, Ghost(ba), Ghost(bb)),
        m12: dot4(a.m10, a.m11, a.m12, a.m13, b.m02, b.m12, b.m22, b.m32, Ghost(ba), Ghost(bb)),
        m13: dot4(a.m10, a.m11, a.m12, a.m13, b.m03, b.m13, b.m23, b.m33, Ghost(ba), Ghost(bb)),
        m20: dot4(a.m20, a.m21, a.m22, a.m23, b.m00, b.m10, b.m20, b.m30, Ghost(ba), Ghost(bb)),
        m21: dot4(a.m20, a.m21, a.m22, a.m23, b.m01, b.m11, b.m21, b.m31, Ghost(ba), Ghost(bb)),
        m22: dot4(a.m20, a.m21, a.m22, a.m23, b.m02, b.m12, b.m22, b.m32, Ghost(ba), Ghost(bb)),
        m23: dot4(a.m20, a.m21, a.m22, a.m23, b.m03, b.m13, b.m23, b.m33, Ghost(ba), Ghost(bb)),
        m30: dot4(a.m30, a.m31, a.m32, a.m33, b.m00, b.m10, b.m20, b.m30, Ghost(ba), Ghost(bb)),
        m31: dot4(a.m30, a.m31, a.m32, a.m33, b.m01, b.m11, b.m21, b.m31, Ghost(ba), Ghost(bb)),
        m32: dot4(a.m30, a.m31, a.m32, a.m33, b.m02, b.m12, b.m22, b.m32, Ghost(ba), Ghost(bb)),
        m33: dot4(a.m30, a.m31, a.m32, a.m33, b.m03, b.m13, b.m23, b.m33, Ghost(ba), Ghost(bb)),
    };
    proof {
        assert(r@ =~= mul_mm(a@, b@));
    }
    r
}

/// Apply an affine matrix to a point.
pub fn mat_apply(m: &Mat4, v: &V3, Ghost(bm): Ghost<int>, Ghost(bv): Ghost<int>) -> (r: V3)
    requires
        0 <= bm,
        SCALE as int <= bv,
        mm_bounded(m@, bm),
        vm_bounded(v@, bv),
        bm * bv <= 0x1000_0000_0000_0000_0000,
    ensures
        r@ == apply_mm(m@, v@),
        vm_bounded(r@, (4 * bm * bv) / (SCALE as int)),
{
    let x: i64 = dot4(m.m00, m.m01, m.m02, m.m03, v.x, v.y, v.z, SCALE, Ghost(bm), Ghost(bv));
    let y: i64 = dot4(m.m10, m.m11, m.m12, m.m13, v.x, v.y, v.z, SCALE, Ghost(bm), Ghost(bv));
    let z: i64 = dot4(m.m20, m.m21, m.m22, m.m23, v.x, v.y, v.z, SCALE, Ghost(bm), Ghost(bv));
    let r = V3 { x, y, z };
    proof {
        assert(r@ =~= apply_mm(m@, v@));
    }
    r
}

/// Runtime check that every entry has magnitude at most `b`.
pub fn mat_within(m: &Mat4, b: i64) -> (r: bool)
    requires
        0 <= b,
    ensures
        r == mm_bounded(m@, b as int),
{
    -b <= m.m00 && m.m00 <= b && -b <= m.m01 && m.m01 <= b && -b <= m.m02 && m.m02 <= b && -b
        <= m.m03 && m.m03 <= b && -b <= m.m10 && m.m10 <= b && -b <= m.m11 && m.m11 <= b && -b
        <= m.m12 && m.m12 <= b && -b <= m.m13 && m.m13 <= b && -b <= m.m20 && m.m20 <= b && -b
        <= m.m21 && m.m21 <= b && -b <= m.m22 && m.m22 <= b && -b <= m.m23 && m.m23 <= b && -b
        <= m.m30 && m.m30 <= b && -b <= m.m31 && m.m31 <= b && -b <= m.m32 && m.m32 <= b && -b
        <= m.m33 && m.m33 <= b
}

/// Rescaling each entry of a matrix model after multiplying by one is exact.
proof fn lemma_div_all(m: Mm)
    ensures
        div_s(m.m00 * (SCALE as int)) == m.m00,
        div_s(m.m01 * (SCALE as int)) == m.m01,
        div_s(m.m02 * (SCALE as int)) == m.m02,
        div_s(m.m03 * (SCALE as int)) == m.m03,
        div_s(m.m10 * (SCALE as int)) == m.m10,
        div_s(m.m11 * (SCALE as int)) == m.m11,
        div_s(m.m12 * (SCALE as int)) == m.m12,
        div_s(m.m13 * (SCALE as int)) == m.m13,
        div_s(m.m20 * (SCALE as int)) == m.m20,
        div_s(m.m21 * (SCALE as int)) == m.m21,
        div_s(m.m22 * (SCALE as int)) == m.m22,
        div_s(m.m23 * (SCALE as int)) == m.m23,
        div_s(m.m30 * (SCALE as int)) == m.m30,
        div_s(m.m31 * (SCALE as int)) == m.m31,
        div_s(m.m32 * (SCALE as int)) == m.m32,
        div_s(m.m33 * (SCALE as int)) == m.m33,
{
    lemma_div_s_mul(m.m00);
    lemma_div_s_mul(m.m01);
    lemma_div_s_mul(m.m02);
    lemma_div_s_mul(m.m03);
    lemma_div_s_mul(m.m10);
    lemma_div_s_mul(m.m11);
    lemma_div_s_mul(m.m12);
    lemma_div_s_mul(m.m13);
    lemma_div_s_mul(m.m20);
    lemma_div_s_mul(m.m21);
    lemma_div_s_mul(m.m22);
    lemma_div_s_mul(m.m23);
    lemma_div_s_mul(m.m30);
    lemma_div_s_mul(m.m31);
    lemma_div_s_mul(m.m32);
    lemma_div_s_mul(m.m33);
}

/// Multiplying by the identity on the left is exact.
pub proof fn lemma_mul_id_left(m: Mm)
    ensures
        mul_mm(id_mm(), m) == m,
{
    lemma_div_all(m);
    assert(mul_mm(id_mm(), m) =~= m);
}

/// Multiplying by the identity on the right is exact.
pub proof fn lemma_mul_id_right(m: Mm)
    ensures
        mul_mm(m, id_mm()) == m,
{
    lemma_div_all(m);
    assert(mul_mm(m, id_mm()) =~= m);
}

/// Translating by zero is the identity.
pub proof fn lemma_translate_zero()
    ensures
        translate_mm(vm_zero()) == id_mm(),
{
    assert(translate_mm(vm_zero()) =~= id_mm());
}

/// Scaling by one in every component is the identity.
pub proof fn lemma_scale_unit()
    ensures
        scale_mm(vm_unit()) == id_mm(),
{
    assert(scale_mm(vm_unit()) =~= id_mm());
}

/// Rotating by angle zero about any axis is the identity.
pub proof fn lemma_rot_zero()
    ensures
        rotx_mm(0) == id_mm(),
        roty_mm(0) == id_mm(),
        rotz_mm(0) == id_mm(),
{
    crate::fixed::lemma_sin_zero();
    crate::fixed::lemma_cos_zero();
    assert(rotx_mm(0) =~= id_mm());
    assert(roty_mm(0) =~= id_mm());
    assert(rotz_mm(0) =~= id_mm());
}

/// Two translations compose exactly into the translation by the sum.
pub proof fn lemma_translate_compose(u: Vm, v: Vm)
    ensures
        mul_mm(translate_mm(u), translate_mm(v)) == translate_mm(vm_add(u, v)),
{
    lemma_div_s_mul(SCALE as int);
    lemma_div_s_mul(0);
    lemma_div_s_mul(u.x + v.x);
    lemma_div_s_mul(u.y + v.y);
    lemma_div_s_mul(u.z + v.z);
    let a = translate_mm(u);
    let b = translate_mm(v);
    assert(a.m00 * b.m00 + a.m01 * b.m10 + a.m02 * b.m20 + a.m03 * b.m30 == (SCALE as int) * (
    SCALE as int) && a.m00 * b.m01 + a.m01 * b.m11 + a.m02 * b.m21 + a.m03 * b.m31 == 0 * (
    SCALE as int) && a.m00 * b.m02 + a.m01 * b.m12 + a.m02 * b.m22 + a.m03 * b.m32 == 0 * (
    SCALE as int) && a.m00 * b.m03 + a.m01 * b.m13 + a.m02 * b.m23 + a.m03 * b.m33 == (u.x + v.x)
        * (SCALE as int) && a.m10 * b.m00 + a.m11 * b.m10 + a.m12 * b.m20 + a.m13 * b.m30 == 0 * (
    SCALE as int) && a.m10 * b.m01 + a.m11 * b.m11 + a.m12 * b.m21 + a.m13 * b.m31 == (
    SCALE as int) * (SCALE as int) && a.m10 * b.m02 + a.m11 * b.m12 + a.m12 * b.m22 + a.m13
        * b.m32 == 0 * (SCALE as int) && a.m10 * b.m03 + a.m11 * b.m13 + a.m12 * b.m23 + a.m13
        * b.m33 == (u.y + v.y) * (SCALE as int) && a.m20 * b.m00 + a.m21 * b.m10 + a.m22 * b.m20
        + a.m23 * b.m30 == 0 * (SCALE as int) && a.m20 * b.m01 + a.m21 * b.m11 + a.m22 * b.m21
        + a.m23 * b.m31 == 0 * (SCALE as int) && a.m20 * b.m02 + a.m21 * b.m12 + a.m22 * b.m22
        + a.m23 * b.m32 == (SCALE as int) * (SCALE as int) && a.m20 * b.m03 + a.m21 * b.m13
        + a.m22 * b.m23 + a.m23 * b.m33 == (u.z + v.z) * (SCALE as int) && a.m30 * b.m00 + a.m31
        * b.m10 + a.m32 * b.m20 + a.m33 * b.m30 == 0 * (SCALE as int) && a.m30 * b.m01 + a.m31
        * b.m11 + a.m32 * b.m21 + a.m33 * b.m31 == 0 * (SCALE as int) && a.m30 * b.m02 + a.m31
        * b.m12 + a.m32 * b.m22 + a.m33 * b.m32 == 0 * (SCALE as int) && a.m30 * b.m03 + a.m31
        * b.m13 + a.m32 * b.m23 + a.m33 * b.m33 == (SCALE as int) * (SCALE as int))
        by (nonlinear_arith)
        requires
            a == translate_mm(u),
            b == translate_mm(v),
    ;
    assert(mul_mm(a, b) =~= translate_mm(vm_add(u, v)));
}

/// Translating an affine matrix on the left shifts its last column exactly
/// and changes nothing else.
pub proof fn lemma_translate_left(v: Vm, m: Mm)
    requires
        affine_mm(m),
    ensures
        mul_mm(translate_mm(v), m) == (Mm {
            m03: m.m03 + v.x,
            m13: m.m13 + v.y,
            m23: m.m23 + v.z,
            ..m
        }),
{
    lemma_div_s_mul(SCALE as int);
    lemma_div_s_mul(0);
    lemma_div_s_mul(m.m00);
    lemma_div_s_mul(m.m01);
    lemma_div_s_mul(m.m02);
    lemma_div_s_mul(m.m10);
    lemma_div_s_mul(m.m11);
    lemma_div_s_mul(m.m12);
    lemma_div_s_mul(m.m20);
    lemma_div_s_mul(m.m21);
    lemma_div_s_mul(m.m22);
    lemma_div_s_mul(m.m03 + v.x);
    lemma_div_s_mul(m.m13 + v.y);
    lemma_div_s_mul(m.m23 + v.z);
    let t = translate_mm(v);
    assert(t.m00 * m.m00 + t.m01 * m.m10 + t.m02 * m.m20 + t.m03 * m.m30 == m.m00 * (SCALE as int)
        && t.m00 * m.m01 + t.m01 * m.m11 + t.m02 * m.m21 + t.m03 * m.m31 == m.m01 * (SCALE as int)
        && t.m00 * m.m02 + t.m01 * m.m12 + t.m02 * m.m22 + t.m03 * m.m32 == m.m02 * (SCALE as int)
        && t.m00 * m.m03 + t.m01 * m.m13 + t.m02 * m.m23 + t.m03 * m.m33 == (m.m03 + v.x) * (
    SCALE as int) && t.m10 * m.m00 + t.m11 * m.m10 + t.m12 * m.m20 + t.m13 * m.m30 == m.m10 * (
    SCALE as int) && t.m10 * m.m01 + t.m11 * m.m11 + t.m12 * m.m21 + t.m13 * m.m31 == m.m11 * (
    SCALE as int) && t.m10 * m.m02 + t.m11 * m.m12 + t.m12 * m.m22 + t.m13 * m.m32 == m.m12 * (
    SCALE as int) && t.m10 * m.m03 + t.m11 * m.m13 + t.m12 * m.m23 + t.m13 * m.m33 == (m.m13
        + v.y) * (SCALE as int) && t.m20 * m.m00 + t.m21 * m.m10 + t.m22 * m.m20 + t.m23 * m.m30
        == m.m20 * (SCALE as int) && t.m20 * m.m01 + t.m21 * m.m11 + t.m22 * m.m21 + t.m23 * m.m31
        == m.m21 * (SCALE as int) && t.m20 * m.m02 + t.m21 * m.m12 + t.m22 * m.m22 + t.m23 * m.m32
        == m.m22 * (SCALE as int) && t.m20 * m.m03 + t.m21 * m.m13 + t.m22 * m.m23 + t.m23 * m.m33
        == (m.m23 + v.z) * (SCALE as int) && t.m30 * m.m00 + t.m31 * m.m10 + t.m32 * m.m20 + t.m33
        * m.m30 == 0 * (SCALE as int) && t.m30 * m.m01 + t.m31 * m.m11 + t.m32 * m.m21 + t.m33
        * m.m31 == 0 * (SCALE as int) && t.m30 * m.m02 + t.m31 * m.m12 + t.m32 * m.m22 + t.m33
        * m.m32 == 0 * (SCALE as int) && t.m30 * m.m03 + t.m31 * m.m13 + t.m32 * m.m23 + t.m33
        * m.m33 == (SCALE as int) * (SCALE as int)) by (nonlinear_arith)
        requires
            t == translate_mm(v),
            m.m30 == 0,
            m.m31 == 0,
            m.m32 == 0,
            m.m33 == SCALE as int,
    ;
    assert(mul_mm(t, m) =~= (Mm { m03: m.m03 + v.x, m13: m.m13 + v.y, m23: m.m23 + v.z, ..m }));
}

/// An affine product of affine matrices is affine, exactly.
pub proof fn lemma_mul_affine(a: Mm, b: Mm)
    requires
        affine_mm(a),
        affine_mm(b),
    ensures
        affine_mm(mul_mm(a, b)),
{
    assert(a.m30 * b.m00 == 0 && a.m31 * b.m10 == 0 && a.m32 * b.m20 == 0 && a.m33 * b.m30 == 0
        && a.m30 * b.m01 == 0 && a.m31 * b.m11 == 0 && a.m32 * b.m21 == 0 && a.m33 * b.m31 == 0
        && a.m30 * b.m02 == 0 && a.m31 * b.m12 == 0 && a.m32 * b.m22 == 0 && a.m33 * b.m32 == 0
        && a.m30 * b.m03 == 0 && a.m31 * b.m13 == 0 && a.m32 * b.m23 == 0 && a.m33 * b.m33 == (
    SCALE as int) * (SCALE as int)) by (nonlinear_arith)
        requires
            a.m30 == 0,
            a.m31 == 0,
            a.m32 == 0,
            a.m33 == SCALE as int,
            b.m30 == 0,
            b.m31 == 0,
            b.m32 == 0,
            b.m33 == SCALE as int,
    ;
    lemma_div_s_mul(SCALE as int);
    lemma_div_s_mul(0);
}

/// Applying a translation to a point adds the offset exactly.
pub proof fn lemma_apply_translate(u: Vm, v: Vm)
    ensures
        apply_mm(translate_mm(u), v) == vm_add(v, u),
{
    lemma_div_s_mul(v.x + u.x);
    lemma_div_s_mul(v.y + u.y);
    lemma_div_s_mul(v.z + u.z);
    assert(apply_mm(translate_mm(u), v) =~= vm_add(v, u));
}

/// Runtime check that every component has magnitude at most `b`.
pub fn v3_within(v: &V3, b: i64) -> (r: bool)
    requires
        0 <= b,
    ensures
        r == vm_bounded(v@, b as int),
{
    -b <= v.x && v.x <= b && -b <= v.y && v.y <= b && -b <= v.z && v.z <= b
}

/// Matrix product with a runtime bound check in place of ghost bounds:
/// succeeds exactly when both operands are within the traversal range.
pub fn mat_mul_checked(a: &Mat4, b: &Mat4) -> (r: Option<Mat4>)
    ensures
        (r is Some) == (mm_bounded(a@, TRAVERSE_LIM as int) && mm_bounded(
            b@,
            TRAVERSE_LIM as int,
        )),
        r matches Some(m) ==> m@ == mul_mm(a@, b@),
{
    if mat_within(a, TRAVERSE_LIM) && mat_within(b, TRAVERSE_LIM) {
        Some(mat_mul(a, b, Ghost(TRAVERSE_LIM as int), Ghost(TRAVERSE_LIM as int)))
    } else {
        None
    }
}

/// Point application with a runtime bound check in place of ghost bounds:
/// succeeds exactly when both operands are within the traversal range.
pub fn mat_apply_checked(m: &Mat4, v: &V3) -> (r: Option<V3>)
    ensures
        (r is Some) == (mm_bounded(m@, TRAVERSE_LIM as int) && vm_bounded(
            v@,
            TRAVERSE_LIM as int,
        )),
        r matches Some(p) ==> p@ == apply_mm(m@, v@),
{
    if mat_within(m, TRAVERSE_LIM) && v3_within(v, TRAVERSE_LIM) {
        Some(mat_apply(m, v, Ghost(TRAVERSE_LIM as int), Ghost(TRAVERSE_LIM as int)))
    } else {
        None
    }
}

} // verus!
