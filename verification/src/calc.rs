//! One tick of a paddle whose body a physics engine moves.
//!
//! The engine owns position and integration. This module decides what the
//! engine is told: the linear velocity after the held directions, and the
//! orientation after the turn of this tick. In the engine's frame y grows
//! upward, and no speed limit applies.

use vstd::prelude::*;
use crate::angle::{is_angle, is_stop, normalize, normalize_angle};
use crate::input::PlayerInputState;
use crate::paddle::RotatingM;
use crate::rotation::{turn, turned, Heading};
use crate::units::{saturate, saturated};

verus! {

/// A vector of the plane.
#[derive(Clone, Copy, PartialEq, Eq, Debug, Structural)]
pub struct Vec2 {
    pub x: i64,
    pub y: i64,
}

/// The linear velocity of a body.
#[derive(Clone, Copy, PartialEq, Eq, Debug, Structural)]
pub struct Velocity {
    pub linvel: Vec2,
}

/// The orientation of a body about the axis that leaves the table.
#[derive(Clone, Copy, PartialEq, Eq, Debug, Structural)]
pub struct Orientation {
    pub rotation: i64,
}

/// The rotation intent of a paddle.
#[derive(Clone, Copy, PartialEq, Eq, Debug, Structural)]
pub struct Rotating(pub RotatingM);

/// The stop that a paddle turns toward.
#[derive(Clone, Copy, PartialEq, Eq, Debug, Structural)]
pub struct NextStop(pub i64);

/// The speed that a held direction adds per tick.
#[derive(Clone, Copy, PartialEq, Eq, Debug, Structural)]
pub struct Acceleration(pub i64);

/// The deceleration with which a turn comes to rest. It cannot be negative,
/// so the root in the turning law always exists.
#[derive(Clone, Copy, PartialEq, Eq, Debug, Structural)]
pub struct RotAcceleration(pub u32);

/// Speed along one axis after the held directions of this tick, without a
/// speed limit. The growing direction is read first where `grow_first`.
pub open spec fn thrust(
    velocity: int,
    acceleration: int,
    grow: bool,
    shrink: bool,
    grow_first: bool,
) -> int {
    let up = |v: int|
        if grow {
            saturated(v + acceleration)
        } else {
            v
        };
    let down = |v: int|
        if shrink {
            saturated(v - acceleration)
        } else {
            v
        };
    if grow_first {
        down(up(velocity))
    } else {
        up(down(velocity))
    }
}

/// The heading that the engine reports, brought into the range of angles.
pub open spec fn reported_heading(rotation: int, next_stop: int, rotating: RotatingM) -> Heading {
    Heading { rotation: normalize(rotation), next_stop, rotating }
}

/// Speed along one axis after the held directions: see [`thrust`].
fn thrust_axis(
    velocity: i64,
    acceleration: i64,
    grow: bool,
    shrink: bool,
    grow_first: bool,
) -> (after: i64)
    ensures
        after == thrust(velocity as int, acceleration as int, grow, shrink, grow_first),
{
    let mut v = velocity;
    if grow_first && grow {
        v = saturate(v as i128 + acceleration as i128);
    }
    if shrink {
        v = saturate(v as i128 - acceleration as i128);
    }
    if !grow_first && grow {
        v = saturate(v as i128 + acceleration as i128);
    }
    v
}

/// Advances one engine-driven paddle by one tick: turns `transform` by the
/// turning law and adds the held directions to `vel`.
pub fn paddle_sim(
    transform: &mut Orientation,
    rotating: &mut Rotating,
    next_stop: &mut NextStop,
    action_state: &PlayerInputState,
    vel: &mut Velocity,
    acceleration: &Acceleration,
    rot_acceleration: &RotAcceleration,
)
    requires
        is_stop(old(next_stop).0 as int),
    ensures
        (Heading {
            rotation: final(transform).rotation as int,
            next_stop: final(next_stop).0 as int,
            rotating: final(rotating).0,
        }) == turned(
            reported_heading(
                old(transform).rotation as int,
                old(next_stop).0 as int,
                old(rotating).0,
            ),
            *action_state,
            rot_acceleration.0 as int,
        ),
        is_angle(final(transform).rotation as int),
        is_stop(final(next_stop).0 as int),
        final(vel).linvel.x == thrust(
            old(vel).linvel.x as int,
            acceleration.0 as int,
            action_state.right,
            action_state.left,
            true,
        ),
        final(vel).linvel.y == thrust(
            old(vel).linvel.y as int,
            acceleration.0 as int,
            action_state.up,
            action_state.down,
            false,
        ),
{
    let heading = turn(
        normalize_angle(transform.rotation),
        next_stop.0,
        rotating.0,
        action_state,
        rot_acceleration.0,
    );
    transform.rotation = heading.0;
    next_stop.0 = heading.1;
    rotating.0 = heading.2;

    vel.linvel.x = thrust_axis(
        vel.linvel.x,
        acceleration.0,
        action_state.right,
        action_state.left,
        true,
    );
    vel.linvel.y = thrust_axis(
        vel.linvel.y,
        acceleration.0,
        action_state.up,
        action_state.down,
        false,
    );
}

} // verus!
