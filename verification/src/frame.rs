//! Per-frame render state: the viewport the render thread keeps in step with
//! resize events, and the camera state it advances from the held keys, both
//! scaled by the frame's elapsed time so that input response is
//! frame-rate-independent.
use vstd::prelude::*;
use crate::fixed::{SCALE, div_s, clamp_i, fix_mul};
use crate::input::{KeySet, KEY_W, KEY_A, KEY_S, KEY_D, KEY_SPACE, KEY_LSHIFT, KEY_UP, KEY_DOWN,
    KEY_RIGHT, KEY_LEFT};
use crate::mat::{Mat4, Vm, V3, vm_bounded, mm_bounded, mul_mm, translate_mm, rotx_mm,
    roty_mm, mat_translate, mat_rot_x, mat_rot_y, mat_mul, PARAM_LIM, ANGLE_LIM, TRAVERSE_LIM};

verus! {

/// Camera translation speed: thirty units per second, fixed point.
pub const CAMERA_SPEED: i64 = 1966080;

/// Camera turn rate: three radians per second, fixed point.
pub const TURN_SPEED: i64 = 196608;

/// Upper bound on one frame's elapsed time: about an hour, fixed point.
pub const DT_LIM: i64 = 0x1000_0000;

/// The viewport as the render thread last applied it.
pub struct Viewport {
    pub width: u32,
    pub height: u32,
    pub aspect: i64,
}

/// Applying a resize: the new size is recorded and the aspect ratio
/// recomputed; a degenerate zero height leaves the aspect untouched. The
/// result depends only on the applied size, never on how often it is
/// applied.
pub open spec fn apply_resize_spec(v: Viewport, width: u32, height: u32) -> Viewport {
    Viewport {
        width,
        height,
        aspect: if height != 0 {
            (((width as int) * (SCALE as int)) / (height as int)) as i64
        } else {
            v.aspect
        },
    }
}

impl Viewport {
    /// The initial viewport.
    pub fn new(width: u32, height: u32) -> (r: Viewport)
        ensures
            r == apply_resize_spec(Viewport { width, height, aspect: SCALE }, width, height),
    {
        let mut v = Viewport { width, height, aspect: SCALE };
        v.apply_resize(width, height);
        v
    }

    /// React to a consumed resize event.
    pub fn apply_resize(&mut self, width: u32, height: u32)
        ensures
            *final(self) == apply_resize_spec(*old(self), width, height),
    {
        self.width = width;
        self.height = height;
        if height != 0 {
            self.aspect = ((width as i64) * SCALE) / (height as i64);
        }
    }
}

/// Resize idempotence: applying the same size twice leaves exactly the state
/// of applying it once.
pub proof fn lemma_resize_idempotent(v: Viewport, width: u32, height: u32)
    ensures
        apply_resize_spec(apply_resize_spec(v, width, height), width, height) == apply_resize_spec(
            v,
            width,
            height,
        ),
{
}

/// Mathematical model of the camera: position and look angles.
#[verifier::ext_equal]
pub ghost struct CamV {
    pub pos: Vm,
    pub pitch: int,
    pub yaw: int,
}

/// The camera the render thread owns: a fixed-point position and pitch/yaw
/// angles in fixed-point radians.
pub struct CameraState {
    pub position: V3,
    pub pitch: i64,
    pub yaw: i64,
}

impl View for CameraState {
    type V = CamV;

    open spec fn view(&self) -> CamV {
        CamV { pos: self.position@, pitch: self.pitch as int, yaw: self.yaw as int }
    }
}

/// Distance moved in one frame.
pub open spec fn move_step(dt: int) -> int {
    div_s(dt * (CAMERA_SPEED as int))
}

/// Angle turned in one frame.
pub open spec fn turn_step(dt: int) -> int {
    div_s(dt * (TURN_SPEED as int))
}

/// Positions saturate at the transform parameter range.
pub open spec fn cl_pos(x: int) -> int {
    clamp_i(x, -(PARAM_LIM as int), PARAM_LIM as int)
}

/// Angles saturate at the angle range.
pub open spec fn cl_ang(x: int) -> int {
    clamp_i(x, -(ANGLE_LIM as int), ANGLE_LIM as int)
}

/// The continuous effect of one held key over one frame of length `dt`.
/// Unknown codes have no effect.
pub open spec fn cam_apply_key(c: CamV, key: u32, dt: int) -> CamV {
    if key == KEY_W {
        CamV { pos: Vm { z: cl_pos(c.pos.z + move_step(dt)), ..c.pos }, ..c }
    } else if key == KEY_S {
        CamV { pos: Vm { z: cl_pos(c.pos.z - move_step(dt)), ..c.pos }, ..c }
    } else if key == KEY_D {
        CamV { pos: Vm { x: cl_pos(c.pos.x - move_step(dt)), ..c.pos }, ..c }
    } else if key == KEY_A {
        CamV { pos: Vm { x: cl_pos(c.pos.x + move_step(dt)), ..c.pos }, ..c }
    } else if key == KEY_SPACE {
        CamV { pos: Vm { y: cl_pos(c.pos.y + move_step(dt)), ..c.pos }, ..c }
    } else if key == KEY_LSHIFT {
        CamV { pos: Vm { y: cl_pos(c.pos.y - move_step(dt)), ..c.pos }, ..c }
    } else if key == KEY_UP {
        CamV { pitch: cl_ang(c.pitch - turn_step(dt)), ..c }
    } else if key == KEY_DOWN {
        CamV { pitch: cl_ang(c.pitch + turn_step(dt)), ..c }
    } else if key == KEY_RIGHT {
        CamV { yaw: cl_ang(c.yaw + turn_step(dt)), ..c }
    } else if key == KEY_LEFT {
        CamV { yaw: cl_ang(c.yaw - turn_step(dt)), ..c }
    } else {
        c
    }
}

/// The effect of a whole list of held keys, in stored order.
pub open spec fn cam_apply_keys(c: CamV, ks: Seq<u32>, dt: int) -> CamV
    decreases ks.len(),
{
    if ks.len() == 0 {
        c
    } else {
        cam_apply_key(cam_apply_keys(c, ks.drop_last(), dt), ks.last(), dt)
    }
}

/// Saturating addition clamped into `[-lim, lim]`.
fn add_clamped(a: i64, b: i64, lim: i64) -> (r: i64)
    requires
        0 < lim,
    ensures
        r as int == clamp_i(a as int + b as int, -(lim as int), lim as int),
{
    let s: i128 = (a as i128) + (b as i128);
    if s < -(lim as i128) {
        -lim
    } else if s > lim as i128 {
        lim
    } else {
        s as i64
    }
}

impl CameraState {
    /// The camera state stays within the ranges the view matrix accepts.
    pub open spec fn wf(self) -> bool {
        &&& vm_bounded(self.position@, PARAM_LIM as int)
        &&& -(ANGLE_LIM as int) <= self.pitch as int <= ANGLE_LIM as int
        &&& -(ANGLE_LIM as int) <= self.yaw as int <= ANGLE_LIM as int
    }

    /// The camera at the origin, looking down the default axis.
    pub fn new() -> (r: CameraState)
        ensures
            r@ == (CamV { pos: Vm { x: 0, y: 0, z: 0 }, pitch: 0, yaw: 0 }),
            r.wf(),
    {
        CameraState { position: V3::zero(), pitch: 0, yaw: 0 }
    }

    /// Apply the continuous effect of one held key for `dt` seconds.
    pub fn apply_key(&mut self, key: u32, dt: i64)
        requires
            old(self).wf(),
            0 <= dt <= DT_LIM,
        ensures
            final(self)@ == cam_apply_key(old(self)@, key, dt as int),
            final(self).wf(),
    {
        if key == KEY_W {
            let step: i64 = fix_mul(dt, CAMERA_SPEED, Ghost(DT_LIM as int), Ghost(0x20_0000int));
            self.position.z = add_clamped(self.position.z, step, PARAM_LIM);
        } else if key == KEY_S {
            let step: i64 = fix_mul(dt, CAMERA_SPEED, Ghost(DT_LIM as int), Ghost(0x20_0000int));
            self.position.z = add_clamped(self.position.z, -step, PARAM_LIM);
        } else if key == KEY_D {
            let step: i64 = fix_mul(dt, CAMERA_SPEED, Ghost(DT_LIM as int), Ghost(0x20_0000int));
            self.position.x = add_clamped(self.position.x, -step, PARAM_LIM);
        } else if key == KEY_A {
            let step: i64 = fix_mul(dt, CAMERA_SPEED, Ghost(DT_LIM as int), Ghost(0x20_0000int));
            self.position.x = add_clamped(self.position.x, step, PARAM_LIM);
        } else if key == KEY_SPACE {
            let step: i64 = fix_mul(dt, CAMERA_SPEED, Ghost(DT_LIM as int), Ghost(0x20_0000int));
            self.position.y = add_clamped(self.position.y, step, PARAM_LIM);
        } else if key == KEY_LSHIFT {
            let step: i64 = fix_mul(dt, CAMERA_SPEED, Ghost(DT_LIM as int), Ghost(0x20_0000int));
            self.position.y = add_clamped(self.position.y, -step, PARAM_LIM);
        } else if key == KEY_UP {
            let step: i64 = fix_mul(dt, TURN_SPEED, Ghost(DT_LIM as int), Ghost(0x4_0000int));
            self.pitch = add_clamped(self.pitch, -step, ANGLE_LIM);
        } else if key == KEY_DOWN {
            let step: i64 = fix_mul(dt, TURN_SPEED, Ghost(DT_LIM as int), Ghost(0x4_0000int));
            self.pitch = add_clamped(self.pitch, step, ANGLE_LIM);
        } else if key == KEY_RIGHT {
            let step: i64 = fix_mul(dt, TURN_SPEED, Ghost(DT_LIM as int), Ghost(0x4_0000int));
            self.yaw = add_clamped(self.yaw, step, ANGLE_LIM);
        } else if key == KEY_LEFT {
            let step: i64 = fix_mul(dt, TURN_SPEED, Ghost(DT_LIM as int), Ghost(0x4_0000int));
            self.yaw = add_clamped(self.yaw, -step, ANGLE_LIM);
        }
        proof {
            assert(self@ =~= cam_apply_key(old(self)@, key, dt as int));
        }
    }

    /// Apply the continuous effect of every held key for `dt` seconds, in
    /// the order the key set stores them.
    pub fn advance(&mut self, keys: &KeySet, dt: i64)
        requires
            old(self).wf(),
            0 <= dt <= DT_LIM,
        ensures
            final(self)@ == cam_apply_keys(old(self)@, keys.keys@, dt as int),
            final(self).wf(),
    {
        let mut k: usize = 0;
        while k < keys.keys.len()
            invariant
                self.wf(),
                0 <= dt <= DT_LIM,
                k <= keys.keys@.len(),
                self@ == cam_apply_keys(old(self)@, keys.keys@.take(k as int), dt as int),
            decreases keys.keys@.len() - k,
        {
            let code: u32 = keys.keys[k];
            self.apply_key(code, dt);
            proof {
                let s = keys.keys@;
                assert(s.take(k as int + 1).drop_last() =~= s.take(k as int));
                assert(s.take(k as int + 1).last() == s[k as int]);
            }
            k = k + 1;
        }
        proof {
            assert(keys.keys@.take(keys.keys@.len() as int) =~= keys.keys@);
        }
    }

    /// The camera's view matrix, before projection: pitch and yaw rotations
    /// applied to the translation by the camera position.
    pub fn view_matrix(&self) -> (r: Mat4)
        requires
            self.wf(),
        ensures
            r@ == mul_mm(
                mul_mm(rotx_mm(self.pitch as int), roty_mm(self.yaw as int)),
                translate_mm(self.position@),
            ),
            mm_bounded(r@, TRAVERSE_LIM as int),
    {
        let rx: Mat4 = mat_rot_x(self.pitch);
        let ry: Mat4 = mat_rot_y(self.yaw);
        let rxy: Mat4 = mat_mul(&rx, &ry, Ghost(65536int), Ghost(65536int));
        let t: Mat4 = mat_translate(&self.position);
        mat_mul(&rxy, &t, Ghost(262144int), Ghost(PARAM_LIM as int))
    }
}

} // verus!
