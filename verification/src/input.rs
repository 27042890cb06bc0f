//! The shared input mailbox between the event thread and the render thread:
//! the pressed-key set, the accumulated mouse delta, the window size with
//! its dirty flag, and the render-thread health flag. Each value is guarded
//! by its own lock at the process level; this module holds the values and
//! the transitions each thread applies to them.
use vstd::prelude::*;
use crate::fixed::clamp_i;

verus! {

/// Key codes the renderer reacts to. Any other `u32` may be stored in the
/// pressed-key set; it simply has no effect.
pub const KEY_W: u32 = 0;

pub const KEY_A: u32 = 1;

pub const KEY_S: u32 = 2;

pub const KEY_D: u32 = 3;

pub const KEY_SPACE: u32 = 4;

pub const KEY_LSHIFT: u32 = 5;

pub const KEY_UP: u32 = 6;

pub const KEY_DOWN: u32 = 7;

pub const KEY_RIGHT: u32 = 8;

pub const KEY_LEFT: u32 = 9;

pub const KEY_ESCAPE: u32 = 10;

pub const KEY_Q: u32 = 11;

/// The set of currently held keys. Membership, not order or count, is the
/// meaning: a key is present exactly while it is held down.
pub struct KeySet {
    pub keys: Vec<u32>,
}

impl KeySet {
    /// No key is stored twice.
    pub open spec fn wf(self) -> bool {
        forall|i: int, j: int|
            0 <= i < j < self.keys@.len() ==> #[trigger] self.keys@[i] != #[trigger] self.keys@[j]
    }

    /// Whether `k` is held.
    pub open spec fn has(self, k: u32) -> bool {
        self.keys@.contains(k)
    }

    /// The empty set.
    pub fn new() -> (r: KeySet)
        ensures
            r.wf(),
            r.keys@.len() == 0,
            forall|k: u32| !r.has(k),
    {
        let r = KeySet { keys: Vec::new() };
        proof {
            assert forall|k: u32| !r.has(k) by {
                assert(r.keys@.len() == 0);
            }
        }
        r
    }

    /// Membership test.
    pub fn contains(&self, k: u32) -> (r: bool)
        ensures
            r == self.has(k),
    {
        let mut i: usize = 0;
        while i < self.keys.len()
            invariant
                i <= self.keys@.len(),
                forall|j: int| 0 <= j < i ==> self.keys@[j] != k,
            decreases self.keys@.len() - i,
        {
            if self.keys[i] == k {
                return true;
            }
            i = i + 1;
        }
        false
    }

    /// Record a key press. Pressing a key that is already held is a no-op:
    /// the stored keys do not change at all.
    pub fn press(&mut self, k: u32) -> (changed: bool)
        requires
            old(self).wf(),
            old(self).keys@.len() < usize::MAX,
        ensures
            final(self).wf(),
            changed == !old(self).has(k),
            old(self).has(k) ==> final(self).keys@ == old(self).keys@,
            !old(self).has(k) ==> final(self).keys@ == old(self).keys@.push(k),
            forall|k2: u32| final(self).has(k2) == (old(self).has(k2) || k2 == k),
    {
        if self.contains(k) {
            return false;
        }
        let ghost oks = self.keys@;
        self.keys.push(k);
        proof {
            assert forall|k2: u32| final(self).has(k2) == (old(self).has(k2) || k2 == k) by {
                if k2 == k {
                    assert(self.keys@[oks.len() as int] == k);
                } else {
                    if old(self).has(k2) {
                        let j = choose|j: int| 0 <= j < oks.len() && oks[j] == k2;
                        assert(self.keys@[j] == k2);
                    } else {
                        if self.has(k2) {
                            let j = choose|j: int|
                                0 <= j < self.keys@.len() && self.keys@[j] == k2;
                            assert(j < oks.len() ==> oks[j] == k2);
                        }
                    }
                }
            }
            assert forall|i: int, j: int|
                0 <= i < j < self.keys@.len() implies #[trigger] self.keys@[i]
                != #[trigger] self.keys@[j] by {
                if j == oks.len() as int {
                    assert(!oks.contains(k));
                }
            }
        }
        true
    }

    /// Record a key release. Releasing a key that is not held is a no-op:
    /// the stored keys do not change at all.
    pub fn release(&mut self, k: u32) -> (changed: bool)
        requires
            old(self).wf(),
        ensures
            final(self).wf(),
            changed == old(self).has(k),
            !old(self).has(k) ==> final(self).keys@ == old(self).keys@,
            forall|k2: u32| final(self).has(k2) == (old(self).has(k2) && k2 != k),
    {
        let ghost oks = self.keys@;
        let mut i: usize = 0;
        while i < self.keys.len()
            invariant
                old(self).wf(),
                oks == old(self).keys@,
                self.keys@ == oks,
                i <= oks.len(),
                forall|j: int| 0 <= j < i ==> oks[j] != k,
            decreases oks.len() - i,
        {
            if self.keys[i] == k {
                let ghost n = oks.len() as int;
                let ghost ii = i as int;
                self.keys.swap_remove(i);
                proof {
                    let nks = self.keys@;
                    assert(oks[ii] == k);
                    assert(nks.len() == n - 1);
                    assert(forall|j: int|
                        0 <= j < n - 1 ==> #[trigger] nks[j] == (if j == ii {
                            oks[n - 1]
                        } else {
                            oks[j]
                        }));
                    assert forall|i2: int, j2: int|
                        0 <= i2 < j2 < nks.len() implies #[trigger] nks[i2]
                        != #[trigger] nks[j2] by {
                        if i2 == ii {
                            assert(nks[i2] == oks[n - 1]);
                            assert(nks[j2] == oks[j2]);
                        } else if j2 == ii {
                            assert(nks[i2] == oks[i2]);
                            assert(nks[j2] == oks[n - 1]);
                        }
                    }
                    assert forall|k2: u32| nks.contains(k2) == (oks.contains(k2) && k2
                        != k) by {
                        if nks.contains(k2) {
                            let j = choose|j: int| 0 <= j < nks.len() && nks[j] == k2;
                            if j == ii {
                                assert(oks[n - 1] == k2);
                            } else {
                                assert(oks[j] == k2);
                            }
                            if k2 == k {
                                if j == ii {
                                    assert(n - 1 != ii);
                                    assert(false);
                                } else {
                                    assert(false);
                                }
                            }
                        }
                        if oks.contains(k2) && k2 != k {
                            let j = choose|j: int| 0 <= j < oks.len() && oks[j] == k2;
                            assert(j != ii);
                            if j == n - 1 {
                                assert(ii < n - 1);
                                assert(nks[ii] == k2);
                            } else {
                                assert(nks[j] == k2);
                            }
                        }
                    }
                }
                return true;
            }
            i = i + 1;
        }
        proof {
            if oks.contains(k) {
                let j = choose|j: int| 0 <= j < oks.len() && oks[j] == k;
                assert(oks[j] != k);
            }
        }
        false
    }
}

/// The accumulated mouse motion since the render thread last consumed it.
pub struct MouseDelta {
    pub dx: i64,
    pub dy: i64,
}

/// Saturating accumulation on one axis.
pub open spec fn acc_axis(a: int, d: int) -> int {
    clamp_i(a + d, i64::MIN as int, i64::MAX as int)
}

impl MouseDelta {
    /// Start with no accumulated motion.
    pub fn new() -> (r: MouseDelta)
        ensures
            r.dx == 0,
            r.dy == 0,
    {
        MouseDelta { dx: 0, dy: 0 }
    }

    /// Add one motion event into the accumulator (event-thread side).
    pub fn accumulate(&mut self, ddx: i64, ddy: i64)
        ensures
            final(self).dx as int == acc_axis(old(self).dx as int, ddx as int),
            final(self).dy as int == acc_axis(old(self).dy as int, ddy as int),
    {
        self.dx = crate::fixed::sat_add(self.dx, ddx);
        self.dy = crate::fixed::sat_add(self.dy, ddy);
    }

    /// Consume the accumulated motion (render-thread side, once per frame):
    /// returns the total and resets the accumulator to zero, so each motion
    /// is applied exactly once.
    pub fn take(&mut self) -> (r: (i64, i64))
        ensures
            r.0 == old(self).dx,
            r.1 == old(self).dy,
            final(self).dx == 0,
            final(self).dy == 0,
    {
        let r = (self.dx, self.dy);
        self.dx = 0;
        self.dy = 0;
        r
    }
}

/// Accumulation between two consumptions sums the intervening motions: as
/// long as no saturation occurs, two accumulated events add up exactly.
pub proof fn lemma_delta_accumulates(s: int, d1: int, d2: int)
    requires
        i64::MIN <= s + d1 <= i64::MAX,
        i64::MIN <= s + d1 + d2 <= i64::MAX,
    ensures
        acc_axis(acc_axis(s, d1), d2) == s + d1 + d2,
{
}

/// The window size as last reported by the event thread, with a dirty flag
/// the render thread clears once it has reacted.
pub struct WindowCell {
    pub width: u32,
    pub height: u32,
    pub dirty: bool,
}

impl WindowCell {
    /// The initial size, not marked dirty.
    pub fn new(width: u32, height: u32) -> (r: WindowCell)
        ensures
            r.width == width,
            r.height == height,
            !r.dirty,
    {
        WindowCell { width, height, dirty: false }
    }

    /// Record a resize event (event-thread side): overwrite the size and
    /// mark it dirty.
    pub fn record_resize(&mut self, width: u32, height: u32)
        ensures
            final(self).width == width,
            final(self).height == height,
            final(self).dirty,
    {
        self.width = width;
        self.height = height;
        self.dirty = true;
    }

    /// Consume a pending resize (render-thread side): returns the new size
    /// exactly when one is pending, and clears the dirty flag.
    pub fn take_resize(&mut self) -> (r: Option<(u32, u32)>)
        ensures
            old(self).dirty ==> r == Some((old(self).width, old(self).height)),
            !old(self).dirty ==> r is None,
            final(self).width == old(self).width,
            final(self).height == old(self).height,
            !final(self).dirty,
    {
        if self.dirty {
            self.dirty = false;
            Some((self.width, self.height))
        } else {
            None
        }
    }
}

/// The render-thread health flag the watchdog maintains: true until the
/// render thread terminates abnormally, then false forever.
pub struct HealthFlag {
    pub healthy: bool,
}

impl HealthFlag {
    /// A freshly spawned render thread is healthy.
    pub fn new() -> (r: HealthFlag)
        ensures
            r.healthy,
    {
        HealthFlag { healthy: true }
    }

    /// The watchdog observed an abnormal termination. The flag only ever
    /// moves to false: reporting twice is the same as reporting once.
    pub fn report_failure(&mut self)
        ensures
            !final(self).healthy,
    {
        self.healthy = false;
    }

    /// Read the flag (event-thread side).
    pub fn is_healthy(&self) -> (r: bool)
        ensures
            r == self.healthy,
    {
        self.healthy
    }
}

/// A window or input event, as the event thread hands it to the mailbox.
pub enum InputEvent {
    Resized(u32, u32),
    Key { code: u32, pressed: bool },
    MouseMotion(i64, i64),
    CloseRequested,
    Other,
}

/// What the event loop should do after an iteration.
#[derive(PartialEq, Eq, Structural, Clone, Copy, Debug)]
pub enum Directive {
    KeepRunning,
    Exit,
}

/// Whether a key requests shutdown.
pub open spec fn exit_key(code: u32) -> bool {
    code == KEY_ESCAPE || code == KEY_Q
}

/// The event loop's decision: exit as soon as the render thread is dead, the
/// window was closed, or an exit key was touched; otherwise carry on.
pub open spec fn directive_spec(healthy: bool, e: InputEvent) -> Directive {
    if !healthy {
        Directive::Exit
    } else {
        match e {
            InputEvent::CloseRequested => Directive::Exit,
            InputEvent::Key { code, pressed } => if exit_key(code) {
                Directive::Exit
            } else {
                Directive::KeepRunning
            },
            _ => Directive::KeepRunning,
        }
    }
}

/// Decide whether the event loop keeps running.
pub fn event_directive(healthy: bool, e: &InputEvent) -> (r: Directive)
    ensures
        r == directive_spec(healthy, *e),
{
    if !healthy {
        return Directive::Exit;
    }
    match e {
        InputEvent::CloseRequested => Directive::Exit,
        InputEvent::Key { code, pressed: _ } => {
            if *code == KEY_ESCAPE || *code == KEY_Q {
                Directive::Exit
            } else {
                Directive::KeepRunning
            }
        },
        _ => Directive::KeepRunning,
    }
}

/// Watchdog trigger: once the health flag is down, every event, whatever it
/// is, makes the event loop request exit.
pub proof fn lemma_unhealthy_exits(e: InputEvent)
    ensures
        directive_spec(false, e) == Directive::Exit,
{
}

} // verus!
