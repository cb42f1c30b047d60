//! The first-person camera's rules: when the cursor is grabbed, and how a
//! jump rises and falls back.
use vstd::prelude::*;

use crate::defaults::{Vec3Bits, F32_ZERO_BITS};

verus! {

/// Whether the camera follows the mouse and keys.
pub struct CameraState {
    pub moveable: bool,
}

/// How the window holds the cursor.
#[derive(Clone, Copy, Debug, PartialEq, Eq, Structural)]
pub enum CursorGrab {
    /// Locked in place.
    Locked,
    /// Free to move and leave the window.
    Free,
}

/// What the cursor grab rules set on the window.
pub struct CursorUpdate {
    /// The new grab mode, when it changes.
    pub grab: Option<CursorGrab>,
    /// Whether the cursor is shown.
    pub visible: bool,
}

/// A left click grabs and hides the cursor and lets the camera move; Escape
/// frees and shows it and stops the camera; Escape wins when both happen.
pub fn cursor_grab_system(
    left_just_pressed: bool,
    escape_just_pressed: bool,
    visible: bool,
    camera_state: &mut CameraState,
) -> (r: CursorUpdate)
    ensures
        escape_just_pressed ==> (r.grab == Some(CursorGrab::Free) && r.visible
            && !final(camera_state).moveable),
        (!escape_just_pressed && left_just_pressed) ==> (r.grab == Some(CursorGrab::Locked)
            && !r.visible && final(camera_state).moveable),
        (!escape_just_pressed && !left_just_pressed) ==> (r.grab is None && r.visible == visible
            && final(camera_state).moveable == old(camera_state).moveable),
{
    let mut grab: Option<CursorGrab> = None;
    let mut visible = visible;
    if left_just_pressed {
        grab = Some(CursorGrab::Locked);
        visible = false;
        camera_state.moveable = !visible;
    }
    if escape_just_pressed {
        grab = Some(CursorGrab::Free);
        visible = true;
        camera_state.moveable = !visible;
    }
    CursorUpdate { grab, visible }
}

/// The bit pattern of `5.0_f32`, the height of a jump.
pub const F32_FIVE_BITS: u32 = 0x40A0_0000u32;

/// The bit pattern of `10.0_f32`.
pub const F32_TEN_BITS: u32 = 0x4120_0000u32;

/// The bit pattern of `-10.0_f32`.
pub const F32_MINUS_TEN_BITS: u32 = 0xC120_0000u32;

/// Whether the `f32` with bit pattern `b` is at most zero: `+0.0`, or a
/// negative number, `-0.0` and minus infinity included; a NaN is not.
pub open spec fn f32_bits_at_most_zero(b: u32) -> bool {
    b == 0 || (0x8000_0000u32 <= b && b <= 0xFF80_0000u32)
}

/// The state of a jump.
pub struct Gravity {
    /// A jump is under way.
    pub jumped: bool,
    /// The camera is falling.
    pub falling: bool,
    /// What is left to fall, as an `f32` vector.
    pub units_left_to_fall: Vec3Bits,
    /// Where the camera looked when the jump began.
    pub camera_start_pos: Option<Vec3Bits>,
}

impl Gravity {
    /// No jump under way.
    pub fn default() -> (g: Gravity)
        ensures
            !g.jumped,
            !g.falling,
            g.units_left_to_fall == Vec3Bits::spec_origin(),
            g.camera_start_pos is None,
    {
        Gravity {
            jumped: false,
            falling: false,
            units_left_to_fall: Vec3Bits::origin(),
            camera_start_pos: None,
        }
    }
}

/// The keyboard rule: when the camera can move, Space starts a jump unless
/// one is under way; the camera's eye then rises by 10 and 5 is left to
/// fall. Gives back how far the eye moves, if it does.
pub fn keyboard_input(space_just_pressed: bool, camera_state: &CameraState, target: Vec3Bits, jumped: &mut Gravity) -> (r:
    Option<Vec3Bits>)
    ensures
        (camera_state.moveable && space_just_pressed && !old(jumped).jumped) ==> ({
            &&& r == Some(Vec3Bits { x: F32_ZERO_BITS, y: F32_TEN_BITS, z: F32_ZERO_BITS })
            &&& final(jumped).jumped
            &&& final(jumped).falling == old(jumped).falling
            &&& final(jumped).units_left_to_fall == (Vec3Bits {
                x: F32_ZERO_BITS,
                y: F32_FIVE_BITS,
                z: F32_ZERO_BITS,
            })
            &&& final(jumped).camera_start_pos == Some(target)
        }),
        !(camera_state.moveable && space_just_pressed && !old(jumped).jumped) ==> (r is None
            && *final(jumped) == *old(jumped)),
{
    if !camera_state.moveable {
        return None;
    }
    if space_just_pressed && jumped.jumped == false {
        let units = Vec3Bits { x: F32_ZERO_BITS, y: F32_FIVE_BITS, z: F32_ZERO_BITS };
        jumped.camera_start_pos = Some(target);
        jumped.jumped = true;
        jumped.units_left_to_fall = units;
        return Some(Vec3Bits { x: F32_ZERO_BITS, y: F32_TEN_BITS, z: F32_ZERO_BITS });
    }
    None
}

/// The bit pattern of `-0.0_f32`.
pub const F32_MINUS_ZERO_BITS: u32 = 0x8000_0000u32;

/// How far the eye falls at the end of a jump: `-(2.0 * (0.0, 5.0, 0.0))`,
/// that is `(-0.0, -10.0, -0.0)`.
pub open spec fn fall_move() -> Vec3Bits {
    Vec3Bits { x: F32_MINUS_ZERO_BITS, y: F32_MINUS_TEN_BITS, z: F32_MINUS_ZERO_BITS }
}

/// How long the eye stays up, in nanoseconds: 900 ms.
pub const JUMP_NANOS: u64 = 900_000_000u64;

/// When the jump timer runs, the time it was started, in nanoseconds of a
/// monotonic clock.
pub struct LocalInstant {
    pub time: Option<u64>,
}

impl LocalInstant {
    /// A timer that does not run.
    pub fn default() -> (t: LocalInstant)
        ensures
            t.time is None,
    {
        LocalInstant { time: None }
    }
}

/// Whether 900 ms have passed from `start` to `now`; a clock read before
/// the start counts as no time passed.
pub open spec fn jump_time_reached(start: u64, now: u64) -> bool {
    now >= start && now - start >= JUMP_NANOS
}

/// One tick of the gravity rule at time `now`: the timer starts if it does
/// not run; with nothing left to fall the jump ends and the timer stops;
/// otherwise, once 900 ms have passed since the timer started, the eye
/// falls, nothing is left to fall and the timer stops. Gives back the new
/// jump state, the new timer and how far the eye moves.
pub open spec fn gravity_step(g: Gravity, timer: Option<u64>, now: u64) -> (Gravity, Option<u64>, Option<
    Vec3Bits,
>) {
    let start = match timer {
        Some(t) => t,
        None => now,
    };
    if f32_bits_at_most_zero(g.units_left_to_fall.y) {
        (Gravity { falling: false, jumped: false, ..g }, None, None)
    } else if jump_time_reached(start, now) {
        (
            Gravity {
                units_left_to_fall: Vec3Bits { y: F32_ZERO_BITS, ..g.units_left_to_fall },
                ..g
            },
            None,
            Some(fall_move()),
        )
    } else {
        (g, Some(start), None)
    }
}

/// The gravity rule for one tick at time `now` (nanoseconds of a monotonic
/// clock); gives back how far the eye moves, if it does.
pub fn gravity_handle(jumped: &mut Gravity, last_time: &mut LocalInstant, now: u64) -> (r: Option<Vec3Bits>)
    ensures
        (*final(jumped), final(last_time).time, r) == gravity_step(*old(jumped), old(last_time).time, now),
{
    if last_time.time.is_none() {
        last_time.time = Some(now);
    }
    let start = match last_time.time {
        Some(t) => t,
        None => now,
    };
    let y = jumped.units_left_to_fall.y;
    if y == 0 || (0x8000_0000u32 <= y && y <= 0xFF80_0000u32) {
        last_time.time = None;
        jumped.falling = false;
        jumped.jumped = false;
        return None;
    }
    if now >= start && now - start >= JUMP_NANOS {
        let fall = Vec3Bits { x: F32_MINUS_ZERO_BITS, y: F32_MINUS_TEN_BITS, z: F32_MINUS_ZERO_BITS };
        last_time.time = None;
        jumped.units_left_to_fall.y = F32_ZERO_BITS;
        return Some(fall);
    }
    None
}

/// The gravity rule run over the ticks at `times`, one after another: the
/// final jump state and timer, and how far the eye moves at each tick.
pub open spec fn gravity_run(g: Gravity, timer: Option<u64>, times: Seq<u64>) -> (Gravity, Option<u64>, Seq<
    Option<Vec3Bits>,
>)
    decreases times.len(),
{
    if times.len() == 0 {
        (g, timer, Seq::empty())
    } else {
        let before = gravity_run(g, timer, times.drop_last());
        let step = gravity_step(before.0, before.1, times.last());
        (step.0, step.1, before.2.push(step.2))
    }
}

/// The first tick at which 900 ms have passed since the first tick.
pub open spec fn first_fall_tick(times: Seq<u64>) -> int
    recommends
        times.len() > 0,
{
    choose|k: int|
        0 <= k < times.len() && jump_time_reached(times[0], times[k]) && forall|i: int|
            0 <= i < k ==> !jump_time_reached(times[0], #[trigger] times[i])
}

proof fn lemma_gravity_run_prefix(g: Gravity, times: Seq<u64>, k: int, n: int)
    requires
        g.units_left_to_fall.y == F32_FIVE_BITS,
        0 <= k < times.len(),
        jump_time_reached(times[0], times[k]),
        forall|i: int| 0 <= i < k ==> !jump_time_reached(times[0], #[trigger] times[i]),
        0 <= n <= times.len(),
    ensures
        ({
            let run = gravity_run(g, None, times.take(n));
            &&& run.2.len() == n
            &&& forall|i: int| 0 <= i < n && i != k ==> #[trigger] run.2[i] is None
            &&& n > k ==> run.2[k] == Some(fall_move())
            &&& n <= k ==> (n == 0 || run.1 == Some(times[0])) && run.0 == g
            &&& n == k + 1 ==> run.1 is None && run.0 == (Gravity {
                units_left_to_fall: Vec3Bits { y: F32_ZERO_BITS, ..g.units_left_to_fall },
                ..g
            })
            &&& n >= k + 2 ==> run.1 is None && !run.0.jumped && !run.0.falling
                && run.0.units_left_to_fall.y == F32_ZERO_BITS
        }),
    decreases n,
{
    if n > 0 {
        lemma_gravity_run_prefix(g, times, k, n - 1);
        assert(times.take(n).drop_last() =~= times.take(n - 1));
        assert(times.take(n).last() == times[n - 1]);
        if n == 1 {
            assert(times.take(0) =~= Seq::<u64>::empty());
        }
    }
}

/// A jump comes down once: after Space raised the eye and left 5 to fall,
/// gravity ticks at `times` move the eye exactly once, by
/// `(-0.0, -10.0, -0.0)`, at the first tick that comes 900 ms or more after
/// the first one; from the tick after that on the jump is over and the
/// timer stopped.
pub proof fn lemma_jump_falls_once(g: Gravity, times: Seq<u64>)
    requires
        g.units_left_to_fall.y == F32_FIVE_BITS,
        exists|k: int| 0 <= k < times.len() && jump_time_reached(times[0], #[trigger] times[k]),
    ensures
        ({
            let k = first_fall_tick(times);
            let run = gravity_run(g, None, times);
            &&& 0 <= k < times.len()
            &&& jump_time_reached(times[0], times[k])
            &&& forall|i: int| 0 <= i < k ==> !jump_time_reached(times[0], #[trigger] times[i])
            &&& run.2.len() == times.len()
            &&& run.2[k] == Some(fall_move())
            &&& forall|i: int| 0 <= i < times.len() && i != k ==> #[trigger] run.2[i] is None
            &&& times.len() >= k + 2 ==> run.1 is None && !run.0.jumped && !run.0.falling
        }),
{
    let k0 = choose|k: int| 0 <= k < times.len() && jump_time_reached(times[0], #[trigger] times[k]);
    lemma_first_reached_exists(times, k0);
    let k = first_fall_tick(times);
    lemma_gravity_run_prefix(g, times, k, times.len() as int);
    assert(times.take(times.len() as int) =~= times);
}

proof fn lemma_first_reached_exists(times: Seq<u64>, k0: int)
    requires
        0 <= k0 < times.len(),
        jump_time_reached(times[0], times[k0]),
    ensures
        exists|k: int|
            0 <= k < times.len() && jump_time_reached(times[0], times[k]) && forall|i: int|
                0 <= i < k ==> !jump_time_reached(times[0], #[trigger] times[i]),
    decreases k0,
{
    if exists|i: int| 0 <= i < k0 && jump_time_reached(times[0], #[trigger] times[i]) {
        let i = choose|i: int| 0 <= i < k0 && jump_time_reached(times[0], #[trigger] times[i]);
        lemma_first_reached_exists(times, i);
    } else {
        assert(0 <= k0 < times.len() && jump_time_reached(times[0], times[k0]) && forall|i: int|
            0 <= i < k0 ==> !jump_time_reached(times[0], #[trigger] times[i]));
    }
}

} // verus!
