//! The transform pipeline: how a node's translation, rotation, scale and
//! pivot compose into its local matrix, and that matrix into the transform
//! handed to its children.
use vstd::prelude::*;
use crate::mat::{Mat4, Mm, Vm, V3, vm_bounded, vm_neg, vm_add, vm_zero, vm_unit, mm_bounded,
    affine_mm, id_mm, translate_mm, scale_mm, rotx_mm, roty_mm, rotz_mm, mul_mm, apply_mm,
    mat_translate, mat_scale, mat_rot_x, mat_rot_y, mat_rot_z, mat_mul, lemma_mul_id_left,
    lemma_mul_id_right, lemma_translate_zero, lemma_scale_unit, lemma_rot_zero,
    lemma_translate_compose, lemma_translate_left, lemma_mul_affine, lemma_apply_translate,
    PARAM_LIM, ANGLE_LIM, LOCAL_LIM};

verus! {

/// The local matrix of a node: translation by `position`, and scale followed
/// by the three axis rotations, both applied about the pivot
/// `reference_point`. The product is associated exactly as the executable
/// pipeline computes it:
/// `(T(position) * (T(-pivot) * (S * (RX * (RY * RZ))))) * T(pivot)`.
pub open spec fn local_mm(position: Vm, rotation: Vm, scale: Vm, reference_point: Vm) -> Mm {
    mul_mm(
        mul_mm(
            translate_mm(position),
            mul_mm(
                translate_mm(vm_neg(reference_point)),
                mul_mm(
                    scale_mm(scale),
                    mul_mm(rotx_mm(rotation.x), mul_mm(roty_mm(rotation.y), rotz_mm(rotation.z))),
                ),
            ),
        ),
        translate_mm(reference_point),
    )
}

/// The accumulated transform a node passes to its children: the parent's
/// accumulated transform times the node's local matrix.
pub open spec fn child_transform_mm(
    t_parent: Mm,
    position: Vm,
    rotation: Vm,
    scale: Vm,
    reference_point: Vm,
) -> Mm {
    mul_mm(t_parent, local_mm(position, rotation, scale, reference_point))
}

/// Compute a node's local matrix.
pub fn local_matrix(position: &V3, rotation: &V3, scale: &V3, reference_point: &V3) -> (r: Mat4)
    requires
        vm_bounded(position@, PARAM_LIM as int),
        vm_bounded(rotation@, ANGLE_LIM as int),
        vm_bounded(scale@, PARAM_LIM as int),
        vm_bounded(reference_point@, PARAM_LIM as int),
    ensures
        r@ == local_mm(position@, rotation@, scale@, reference_point@),
        mm_bounded(r@, LOCAL_LIM as int),
        affine_mm(r@),
{
    let ry: Mat4 = mat_rot_y(rotation.y);
    let rz: Mat4 = mat_rot_z(rotation.z);
    let ryz: Mat4 = mat_mul(&ry, &rz, Ghost(65536int), Ghost(65536int));
    let rx: Mat4 = mat_rot_x(rotation.x);
    let rxyz: Mat4 = mat_mul(&rx, &ryz, Ghost(65536int), Ghost(262144int));
    let sm: Mat4 = mat_scale(scale);
    let sr: Mat4 = mat_mul(&sm, &rxyz, Ghost(PARAM_LIM as int), Ghost(1048576int));
    let nrp: V3 = reference_point.neg();
    let tn: Mat4 = mat_translate(&nrp);
    let t2: Mat4 = mat_mul(&tn, &sr, Ghost(PARAM_LIM as int), Ghost(0x10_0000_0000int));
    proof {
        lemma_mul_affine(ry@, rz@);
        lemma_mul_affine(rx@, ryz@);
        lemma_mul_affine(sm@, rxyz@);
        lemma_translate_left(vm_neg(reference_point@), sr@);
        assert(mm_bounded(t2@, 0x20_0000_0000int));
        lemma_mul_affine(tn@, sr@);
    }
    let tp: Mat4 = mat_translate(position);
    let t3: Mat4 = mat_mul(&tp, &t2, Ghost(PARAM_LIM as int), Ghost(0x20_0000_0000int));
    proof {
        lemma_translate_left(position@, t2@);
        assert(mm_bounded(t3@, 0x40_0000_0000int));
        lemma_mul_affine(tp@, t2@);
    }
    let trp: Mat4 = mat_translate(reference_point);
    let r: Mat4 = mat_mul(&t3, &trp, Ghost(0x40_0000_0000int), Ghost(PARAM_LIM as int));
    proof {
        lemma_mul_affine(t3@, trp@);
    }
    r
}

/// With every parameter at its default the local matrix is the identity.
pub proof fn lemma_local_identity()
    ensures
        local_mm(vm_zero(), vm_zero(), vm_unit(), vm_zero()) == id_mm(),
{
    lemma_rot_zero();
    lemma_scale_unit();
    lemma_translate_zero();
    lemma_mul_id_left(id_mm());
    assert(vm_neg(vm_zero()) =~= vm_zero());
    assert(local_mm(vm_zero(), vm_zero(), vm_unit(), vm_zero()) == id_mm());
}

/// Pivot correctness: with no rotation and unit scale, the local matrix of a
/// node at offset `d` with pivot `p` maps the pivot to `p + d`.
pub proof fn lemma_pivot_translation(d: Vm, p: Vm)
    ensures
        local_mm(d, vm_zero(), vm_unit(), p) == translate_mm(d),
        apply_mm(local_mm(d, vm_zero(), vm_unit(), p), p) == vm_add(p, d),
{
    lemma_rot_zero();
    lemma_scale_unit();
    lemma_mul_id_left(id_mm());
    lemma_mul_id_right(translate_mm(vm_neg(p)));
    lemma_translate_compose(d, vm_neg(p));
    lemma_translate_compose(vm_add(d, vm_neg(p)), p);
    assert(vm_add(vm_add(d, vm_neg(p)), p) =~= d);
    assert(local_mm(d, vm_zero(), vm_unit(), p) == translate_mm(d));
    lemma_apply_translate(d, p);
}

/// Pivot rotation: a node with pivot `p`, rotation `theta` about the x axis,
/// no offset and unit scale spins about its pivot: its world matrix is the
/// parent's transform times `T(-p) * RX(theta) * T(p)`.
pub proof fn lemma_pivot_rotation(theta: int, p: Vm, t_parent: Mm)
    ensures
        local_mm(vm_zero(), (Vm { x: theta, y: 0, z: 0 }), vm_unit(), p) == mul_mm(
            mul_mm(translate_mm(vm_neg(p)), rotx_mm(theta)),
            translate_mm(p),
        ),
        child_transform_mm(t_parent, vm_zero(), (Vm { x: theta, y: 0, z: 0 }), vm_unit(), p)
            == mul_mm(
            t_parent,
            mul_mm(mul_mm(translate_mm(vm_neg(p)), rotx_mm(theta)), translate_mm(p)),
        ),
{
    lemma_rot_zero();
    lemma_scale_unit();
    lemma_translate_zero();
    lemma_mul_id_right(rotx_mm(theta));
    lemma_mul_id_left(rotx_mm(theta));
    lemma_mul_id_left(mul_mm(translate_mm(vm_neg(p)), rotx_mm(theta)));
}

} // verus!
