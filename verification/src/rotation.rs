//! How a paddle turns.
//!
//! A paddle rests at one of four stops, a quarter turn apart. A rotate input
//! makes the next stop in that direction its target and sets its intent. It
//! then closes in on the target with a speed that follows from a constant
//! deceleration to rest, `v = sqrt(2 * a * d)`, held to a largest step per
//! tick, and snaps onto the target once it is close enough. While a rotate
//! input is held, the full step in its direction is added.

use vstd::prelude::*;
use crate::angle::{
    acw_arc, ang_dist, cw_arc, is_angle, is_stop, lemma_arcs_complement, lemma_next_stop_acw,
    lemma_next_stop_cw, next_stop_acw, next_stop_cw, normalize, normalize_angle,
};
use crate::input::PlayerInputState;
use crate::isqrt::{capped_isqrt, isqrt, lemma_isqrt};
use crate::paddle::RotatingM;
use crate::units::{
    clamp, FULL_TURN, MAX_ROTATION_STEP, NEAR_THRESHOLD, QUARTER_TURN, SNAP_EPSILON,
};

verus! {

/// The part of a paddle that turning reads and writes.
pub struct Heading {
    pub rotation: int,
    pub next_stop: int,
    pub rotating: RotatingM,
}

impl Heading {
    /// The rotation is a normalized angle and the target is a stop.
    pub open spec fn wf(self) -> bool {
        is_angle(self.rotation) && is_stop(self.next_stop)
    }
}

/// The intent once arrival is imminent: an intent is given up when the target
/// is nearer than the near threshold.
pub open spec fn settled_intent(h: Heading) -> RotatingM {
    if h.rotating != RotatingM::Neither && ang_dist(h.rotation, h.next_stop) < NEAR_THRESHOLD {
        RotatingM::Neither
    } else {
        h.rotating
    }
}

/// Target and intent after the rotate inputs of this tick. Clockwise is read
/// last, so it wins where both are held.
pub open spec fn steered(h: Heading, input: PlayerInputState) -> Heading {
    let h1 = if input.rotate_acw {
        Heading { rotating: RotatingM::AntiClockwise, next_stop: next_stop_acw(h.rotation), ..h }
    } else {
        h
    };
    if input.rotate_cw {
        Heading { rotating: RotatingM::Clockwise, next_stop: next_stop_cw(h.rotation), ..h1 }
    } else {
        h1
    }
}

/// The signed way to the target: positive clockwise. With an intent it is the
/// arc in that direction, however long; without one it is the shorter arc,
/// the anticlockwise one where both are equal.
pub open spec fn displacement(h: Heading) -> int {
    let cw = cw_arc(h.rotation, h.next_stop);
    let acw = acw_arc(h.rotation, h.next_stop);
    match h.rotating {
        RotatingM::Clockwise => cw,
        RotatingM::AntiClockwise => -acw,
        RotatingM::Neither => if cw < acw {
            cw
        } else {
            -acw
        },
    }
}

/// The speed from which a constant deceleration `accel` comes to rest after
/// the way `d`, signed as `d`.
pub open spec fn kinematic_velocity(accel: int, d: int) -> int {
    if d >= 0 {
        isqrt(2 * accel * d)
    } else {
        -isqrt(2 * accel * (-d))
    }
}

/// What the held rotate inputs add to the speed of this tick.
pub open spec fn boost(input: PlayerInputState) -> int {
    (if input.rotate_cw {
        MAX_ROTATION_STEP as int
    } else {
        0
    }) - (if input.rotate_acw {
        MAX_ROTATION_STEP as int
    } else {
        0
    })
}

/// The heading from which this tick moves: the given one with its intent
/// settled and the rotate inputs applied.
pub open spec fn aimed(h: Heading, input: PlayerInputState) -> Heading {
    steered(Heading { rotating: settled_intent(h), ..h }, input)
}

/// Whether the aimed heading is still further from its target than the snap
/// distance.
pub open spec fn is_far(h: Heading, input: PlayerInputState) -> bool {
    ang_dist(aimed(h, input).rotation, aimed(h, input).next_stop) > SNAP_EPSILON
}

/// The signed speed of this tick: the kinematic speed toward the target, or
/// none where the paddle snaps, plus what held rotate inputs add, held to the
/// largest step.
pub open spec fn turn_velocity(h: Heading, input: PlayerInputState, accel: int) -> int {
    let kinematic = if is_far(h, input) {
        kinematic_velocity(accel, displacement(aimed(h, input)))
    } else {
        0
    };
    clamp(kinematic + boost(input), -(MAX_ROTATION_STEP as int), MAX_ROTATION_STEP as int)
}

/// The heading after one tick. A far paddle moves on from where it is and
/// keeps its intent; a near one moves on from its target and has none.
pub open spec fn turned(h: Heading, input: PlayerInputState, accel: int) -> Heading {
    let h1 = aimed(h, input);
    let far = is_far(h, input);
    let from = if far {
        h1.rotation
    } else {
        h1.next_stop
    };
    Heading {
        rotation: normalize(from + turn_velocity(h, input, accel)),
        next_stop: h1.next_stop,
        rotating: if far {
            h1.rotating
        } else {
            RotatingM::Neither
        },
    }
}

/// A tick keeps a heading well formed and its speed within the largest step.
pub proof fn lemma_turned_wf(h: Heading, input: PlayerInputState, accel: int)
    requires
        h.wf(),
    ensures
        turned(h, input, accel).wf(),
        -MAX_ROTATION_STEP <= turn_velocity(h, input, accel) <= MAX_ROTATION_STEP,
{
    lemma_next_stop_cw(h.rotation);
    lemma_next_stop_acw(h.rotation);
}

/// The first stop strictly clockwise of `rotation`.
fn stop_clockwise(rotation: i64) -> (stop: i64)
    requires
        is_angle(rotation as int),
    ensures
        stop == next_stop_cw(rotation as int),
{
    let stop = (rotation / QUARTER_TURN + 1) * QUARTER_TURN;
    if stop >= FULL_TURN {
        stop - FULL_TURN
    } else {
        stop
    }
}

/// The first stop strictly anticlockwise of `rotation`.
fn stop_anticlockwise(rotation: i64) -> (stop: i64)
    requires
        is_angle(rotation as int),
    ensures
        stop == next_stop_acw(rotation as int),
{
    let stop = ((rotation + QUARTER_TURN - 1) / QUARTER_TURN - 1) * QUARTER_TURN;
    if stop < 0 {
        stop + FULL_TURN
    } else {
        stop
    }
}

/// The clockwise arc from `from` to `to`.
fn arc_clockwise(from: i64, to: i64) -> (arc: i64)
    requires
        is_angle(from as int),
        is_angle(to as int),
    ensures
        arc == cw_arc(from as int, to as int),
        acw_arc(from as int, to as int) == cw_arc(to as int, from as int),
{
    if to >= from {
        to - from
    } else {
        to - from + FULL_TURN
    }
}

/// The kinematic speed for the way `way`, held to the largest step.
fn capped_speed(accel: u32, way: i64) -> (speed: i64)
    requires
        0 <= way < FULL_TURN,
    ensures
        speed == vstd::math::min(isqrt(2 * accel * way), MAX_ROTATION_STEP as int),
        0 <= isqrt(2 * accel * way),
{
    assert(0 <= 2 * accel * way <= 2 * 0xffff_ffff * 360_000) by (nonlinear_arith)
        requires
            0 <= accel <= 0xffff_ffff,
            0 <= way < 360_000,
    ;
    proof {
        lemma_isqrt(2 * accel * way);
    }
    let twice: u64 = 2 * (accel as u64);
    let way: u64 = way as u64;
    assert(twice * way == 2 * accel * way) by (nonlinear_arith)
        requires
            twice == 2 * accel,
    ;
    let n: u64 = twice * way;
    capped_isqrt(n, MAX_ROTATION_STEP as u32) as i64
}

/// Turns a heading by one tick. Returns rotation, target, intent and the
/// speed of this tick, in that order.
pub(crate) fn turn(
    rotation: i64,
    next_stop: i64,
    rotating: RotatingM,
    input: &PlayerInputState,
    accel: u32,
) -> (after: (i64, i64, RotatingM, i64))
    requires
        is_angle(rotation as int),
        is_stop(next_stop as int),
    ensures
        (Heading { rotation: after.0 as int, next_stop: after.1 as int, rotating: after.2 })
            == turned(
            Heading { rotation: rotation as int, next_stop: next_stop as int, rotating },
            *input,
            accel as int,
        ),
        after.3 == turn_velocity(
            Heading { rotation: rotation as int, next_stop: next_stop as int, rotating },
            *input,
            accel as int,
        ),
        is_angle(after.0 as int),
        is_stop(after.1 as int),
        -MAX_ROTATION_STEP <= after.3 <= MAX_ROTATION_STEP,
{
    let ghost before = Heading {
        rotation: rotation as int,
        next_stop: next_stop as int,
        rotating,
    };
    proof {
        lemma_turned_wf(before, *input, accel as int);
        lemma_next_stop_cw(rotation as int);
        lemma_next_stop_acw(rotation as int);
        lemma_arcs_complement(rotation as int, next_stop as int);
    }
    let mut stop = next_stop;
    let mut intent = rotating;

    let cw0 = arc_clockwise(rotation, stop);
    let acw0 = arc_clockwise(stop, rotation);
    let dist0 = if cw0 < acw0 { cw0 } else { acw0 };
    match intent {
        RotatingM::Neither => {},
        _ => {
            if dist0 < NEAR_THRESHOLD {
                intent = RotatingM::Neither;
            }
        },
    }
    assert(intent == settled_intent(before));

    if input.rotate_acw {
        intent = RotatingM::AntiClockwise;
        stop = stop_anticlockwise(rotation);
    }
    if input.rotate_cw {
        intent = RotatingM::Clockwise;
        stop = stop_clockwise(rotation);
    }
    let ghost h1 = aimed(before, *input);
    assert(intent == h1.rotating && stop == h1.next_stop);
    proof {
        lemma_arcs_complement(rotation as int, stop as int);
    }

    let cw = arc_clockwise(rotation, stop);
    let acw = arc_clockwise(stop, rotation);
    let dist = if cw < acw { cw } else { acw };
    let mut from = stop;
    let mut kinematic: i64 = 0;
    if dist > SNAP_EPSILON {
        from = rotation;
        let clockwise = match intent {
            RotatingM::Clockwise => true,
            RotatingM::AntiClockwise => false,
            RotatingM::Neither => cw < acw,
        };
        if clockwise {
            kinematic = capped_speed(accel, cw);
        } else {
            kinematic = -capped_speed(accel, acw);
        }
    } else {
        intent = RotatingM::Neither;
    }

    let mut velocity = kinematic;
    if input.rotate_cw {
        velocity = velocity + MAX_ROTATION_STEP;
    }
    if input.rotate_acw {
        velocity = velocity - MAX_ROTATION_STEP;
    }
    if velocity > MAX_ROTATION_STEP {
        velocity = MAX_ROTATION_STEP;
    } else if velocity < -MAX_ROTATION_STEP {
        velocity = -MAX_ROTATION_STEP;
    }
    let after = normalize_angle(from + velocity);
    (after, stop, intent, velocity)
}

} // verus!
