use gloom::buffer::interleave_attributes;
use gloom::fixed::{cos_fx, sat_add, sin_fx, FX_HALF, FX_QUARTER, SCALE};
use gloom::frame::{CameraState, Viewport};
use gloom::input::{
    event_directive, Directive, HealthFlag, InputEvent, KeySet, MouseDelta, WindowCell,
    KEY_ESCAPE, KEY_Q, KEY_UP, KEY_W,
};
use gloom::mat::{
    mat_apply_checked, mat_identity, mat_mul_checked, mat_rot_x, mat_translate, Mat4, V3,
};
use gloom::scene::{SceneGraph, SceneNode};
use gloom::transform::local_matrix;

fn mat_fields(m: &Mat4) -> [i64; 16] {
    [
        m.m00, m.m01, m.m02, m.m03, m.m10, m.m11, m.m12, m.m13, m.m20, m.m21, m.m22, m.m23,
        m.m30, m.m31, m.m32, m.m33,
    ]
}

#[test]
fn identity_local_matrix() {
    let m = local_matrix(&V3::zero(), &V3::zero(), &V3::unit(), &V3::zero());
    assert_eq!(mat_fields(&m), mat_fields(&mat_identity()));
}

#[test]
fn pivot_translation_maps_pivot_by_offset() {
    // reference point p, rotation zero, scale one, position d:
    // the local matrix is the translation by d, and maps p to p + d.
    let p = V3::new(98304, 131072, -212992);
    let d = V3::new(262144, 327680, 393216);
    let m = local_matrix(&d, &V3::zero(), &V3::unit(), &p);
    assert_eq!(mat_fields(&m), mat_fields(&mat_translate(&d)));
    let q = mat_apply_checked(&m, &p).unwrap();
    assert_eq!((q.x, q.y, q.z), (98304 + 262144, 131072 + 327680, -212992 + 393216));
}

#[test]
fn translations_compose_exactly() {
    let a = V3::new(65536, 131072, 196608);
    let b = V3::new(262144, 327680, 393216);
    let m = mat_mul_checked(&mat_translate(&a), &mat_translate(&b)).unwrap();
    let sum = V3::new(a.x + b.x, a.y + b.y, a.z + b.z);
    assert_eq!(mat_fields(&m), mat_fields(&mat_translate(&sum)));
}

#[test]
fn rotation_by_zero_is_identity() {
    let m = mat_rot_x(0);
    assert_eq!(mat_fields(&m), mat_fields(&mat_identity()));
}

#[test]
fn trig_exact_values() {
    assert_eq!(sin_fx(0), 0);
    assert_eq!(cos_fx(0), SCALE);
    assert_eq!(sin_fx(FX_HALF), 0);
    assert_eq!(cos_fx(FX_HALF), -SCALE);
    // a quarter turn: the polynomial lands within a whisker of one
    let s = sin_fx(FX_QUARTER);
    assert!(s > SCALE - 100 && s <= SCALE, "sin quarter turn was {}", s);
    // odd symmetry through the quadrant reduction
    assert_eq!(sin_fx(-FX_QUARTER), -sin_fx(FX_QUARTER));
}

#[test]
fn traversal_draws_parent_before_children_in_order() {
    let mut g = SceneGraph::new();
    let root = g.add_node(SceneNode::new());
    let a = g.add_node(SceneNode::from_vao(10, 3));
    let b = g.add_node(SceneNode::from_vao(11, 3));
    let c = g.add_node(SceneNode::from_vao(12, 3));
    assert!(g.add_child(root, a));
    assert!(g.add_child(a, b));
    assert!(g.add_child(a, c));
    let draws = g.traverse(root, &mat_identity());
    let vaos: Vec<u32> = draws.iter().map(|d| d.vao).collect();
    assert_eq!(vaos, vec![10, 11, 12]);
}

#[test]
fn tail_rotor_spins_about_its_mounting_point() {
    // root -> terrain -> body -> {door, main rotor, tail rotor}, terrain and
    // body at identity, the tail rotor pivoting about its mounting point.
    let reference = V3::new(-22938, -150733, -681574);
    let theta: i64 = 45875;
    let mut g = SceneGraph::new();
    let root = g.add_node(SceneNode::new());
    let terrain = g.add_node(SceneNode::from_vao(1, 300));
    let body = g.add_node(SceneNode::from_vao(2, 400));
    let door = g.add_node(SceneNode::from_vao(3, 50));
    let main_rotor = g.add_node(SceneNode::from_vao(4, 60));
    let tail_rotor = g.add_node(SceneNode::from_vao(5, 70));
    assert!(g.add_child(root, terrain));
    assert!(g.add_child(terrain, body));
    assert!(g.add_child(body, door));
    assert!(g.add_child(body, main_rotor));
    assert!(g.add_child(body, tail_rotor));
    g.set_reference_point(tail_rotor, reference);
    g.set_rotation(tail_rotor, V3::new(theta, 0, 0));

    let draws = g.traverse(root, &mat_identity());
    assert_eq!(draws.len(), 5);
    let vaos: Vec<u32> = draws.iter().map(|d| d.vao).collect();
    assert_eq!(vaos, vec![1, 2, 3, 4, 5]);

    // T_body is the identity here, so the tail rotor's world matrix must be
    // T(-p) * RX(theta) * T(p) exactly.
    let t_neg = mat_translate(&reference.neg());
    let t_ref = mat_translate(&reference);
    let rx = mat_rot_x(theta);
    let partial = mat_mul_checked(&t_neg, &rx).unwrap();
    let expected = mat_mul_checked(&partial, &t_ref).unwrap();
    assert_eq!(mat_fields(&draws[4].model), mat_fields(&expected));
    assert_eq!(mat_fields(&draws[4].mvp), mat_fields(&expected));
}

#[test]
fn add_child_rejects_bad_edges() {
    let mut g = SceneGraph::new();
    let root = g.add_node(SceneNode::new());
    let a = g.add_node(SceneNode::new());
    let b = g.add_node(SceneNode::new());
    assert!(!g.add_child(a, a));
    assert!(!g.add_child(b, a));
    assert!(g.add_child(root, a));
    // a node may be added as a child at most once
    assert!(!g.add_child(root, a));
    assert!(!g.add_child(b, a));
    assert!(g.add_child(a, b));
}

#[test]
fn pressing_a_pressed_key_is_a_no_op() {
    let mut ks = KeySet::new();
    assert!(ks.press(KEY_W));
    assert!(!ks.press(KEY_W));
    assert_eq!(ks.keys.len(), 1);
    assert!(ks.contains(KEY_W));
}

#[test]
fn releasing_an_absent_key_is_a_no_op() {
    let mut ks = KeySet::new();
    assert!(ks.press(KEY_W));
    assert!(!ks.release(KEY_Q));
    assert_eq!(ks.keys.len(), 1);
    assert!(ks.release(KEY_W));
    assert!(!ks.contains(KEY_W));
    assert_eq!(ks.keys.len(), 0);
}

#[test]
fn mouse_delta_accumulates_and_is_consumed_once() {
    let mut d = MouseDelta::new();
    d.accumulate(3, 4);
    d.accumulate(-1, 2);
    assert_eq!(d.take(), (2, 6));
    // consumed exactly once: a second take sees nothing
    assert_eq!(d.take(), (0, 0));
}

#[test]
fn saturating_addition_clamps() {
    assert_eq!(sat_add(i64::MAX, 1), i64::MAX);
    assert_eq!(sat_add(i64::MIN, -1), i64::MIN);
    assert_eq!(sat_add(40, 2), 42);
}

#[test]
fn window_cell_reports_resize_once() {
    let mut w = WindowCell::new(800, 600);
    assert_eq!(w.take_resize(), None);
    w.record_resize(1024, 768);
    assert_eq!(w.take_resize(), Some((1024, 768)));
    assert_eq!(w.take_resize(), None);
}

#[test]
fn resize_is_idempotent() {
    let mut v = Viewport::new(800, 600);
    assert_eq!(v.aspect, 800 * SCALE / 600);
    let once = (v.width, v.height, v.aspect);
    v.apply_resize(1024, 768);
    let after_first = (v.width, v.height, v.aspect);
    v.apply_resize(1024, 768);
    assert_eq!((v.width, v.height, v.aspect), after_first);
    assert_ne!(after_first, once);
    // a degenerate height keeps the previous aspect
    v.apply_resize(640, 0);
    assert_eq!(v.aspect, after_first.2);
    assert_eq!((v.width, v.height), (640, 0));
}

#[test]
fn watchdog_forces_exit() {
    let mut h = HealthFlag::new();
    assert!(h.is_healthy());
    h.report_failure();
    assert!(!h.is_healthy());
    // reporting twice is the same as reporting once
    h.report_failure();
    assert!(!h.is_healthy());
    // once unhealthy, any event at all makes the loop exit
    assert_eq!(event_directive(h.is_healthy(), &InputEvent::Other), Directive::Exit);
    assert_eq!(
        event_directive(h.is_healthy(), &InputEvent::MouseMotion(1, 1)),
        Directive::Exit
    );
}

#[test]
fn exit_keys_and_close_requests_exit() {
    assert_eq!(
        event_directive(true, &InputEvent::Key { code: KEY_ESCAPE, pressed: true }),
        Directive::Exit
    );
    assert_eq!(
        event_directive(true, &InputEvent::Key { code: KEY_Q, pressed: true }),
        Directive::Exit
    );
    assert_eq!(event_directive(true, &InputEvent::CloseRequested), Directive::Exit);
    assert_eq!(
        event_directive(true, &InputEvent::Key { code: KEY_W, pressed: true }),
        Directive::KeepRunning
    );
    assert_eq!(event_directive(true, &InputEvent::Resized(4, 4)), Directive::KeepRunning);
}

#[test]
fn camera_moves_with_held_keys() {
    let mut cam = CameraState::new();
    // one full second with W held: thirty units forward
    cam.apply_key(KEY_W, SCALE);
    assert_eq!(cam.position.z, 30 * SCALE);
    assert_eq!(cam.position.x, 0);
    // half a second of pitch-up
    cam.apply_key(KEY_UP, SCALE / 2);
    assert_eq!(cam.pitch, -3 * SCALE / 2);
    let mut ks = KeySet::new();
    ks.press(KEY_W);
    ks.press(KEY_UP);
    let mut cam2 = CameraState::new();
    cam2.advance(&ks, SCALE);
    assert_eq!(cam2.position.z, 30 * SCALE);
    assert_eq!(cam2.pitch, -3 * SCALE);
}

#[test]
fn camera_at_rest_views_identity() {
    let cam = CameraState::new();
    assert_eq!(mat_fields(&cam.view_matrix()), mat_fields(&mat_identity()));
}

#[test]
fn interleave_packs_ten_values_per_vertex() {
    let vertices: Vec<i32> = vec![1, 2, 3, 4, 5, 6];
    let colours: Vec<i32> = vec![10, 11, 12, 13, 20, 21, 22, 23];
    let normals: Vec<i32> = vec![7, 8, 9, 17, 18, 19];
    let packed = interleave_attributes(&vertices, &colours, &normals);
    assert_eq!(
        packed,
        vec![1, 2, 3, 10, 11, 12, 13, 7, 8, 9, 4, 5, 6, 20, 21, 22, 23, 17, 18, 19]
    );
}
