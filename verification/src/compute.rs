//! One tick of the standalone paddle: it gains speed from the held
//! directions, turns, moves, loses speed to friction and stays on the table.

use vstd::prelude::*;
use crate::input::PlayerInputState;
use crate::input_handlers::InputHandler;
use crate::paddle::{Paddle, PaddleModel, RotatingM};
use crate::rotation::{lemma_turned_wf, turn, turn_velocity, turned, Heading};
use crate::settling::{
    lemma_rest_is_kept, lemma_rest_through, lemma_standalone_settles, no_rotate, turned_through,
};
use crate::units::{
    lemma_trunc_div_bounds, mul_scaled, scaled_mul, MAX_SPEED, ROT_ACCELERATION, SCALE,
    TABLE_HEIGHT, TABLE_WIDTH,
};

verus! {

/// Speed along one axis after the held directions of this tick. The growing
/// direction is read first where `grow_first`, and each push is held to the
/// speed limit on its own side.
pub open spec fn pushed(
    velocity: int,
    acceleration: int,
    grow: bool,
    shrink: bool,
    grow_first: bool,
) -> int {
    let up = |v: int|
        if grow {
            vstd::math::min(v + acceleration, MAX_SPEED as int)
        } else {
            v
        };
    let down = |v: int|
        if shrink {
            vstd::math::max(v - acceleration, -(MAX_SPEED as int))
        } else {
            v
        };
    if grow_first {
        down(up(velocity))
    } else {
        up(down(velocity))
    }
}

/// The paddle with the speed that the held directions give it. Right and
/// down grow a coordinate; left and up shrink it.
pub open spec fn accelerated(p: PaddleModel, input: PlayerInputState) -> PaddleModel {
    PaddleModel {
        velocity_x: pushed(p.velocity_x, p.acceleration, input.right, input.left, true),
        velocity_y: pushed(p.velocity_y, p.acceleration, input.down, input.up, false),
        ..p
    }
}

/// The heading of a paddle.
pub open spec fn heading_of(p: PaddleModel) -> Heading {
    Heading { rotation: p.rotation, next_stop: p.next_stop, rotating: p.rotating }
}

/// The paddle after its heading has turned by one tick.
pub open spec fn rotated(p: PaddleModel, input: PlayerInputState, accel: int) -> PaddleModel {
    let h = turned(heading_of(p), input, accel);
    PaddleModel {
        rotation: h.rotation,
        next_stop: h.next_stop,
        rotating: h.rotating,
        rotation_velocity: turn_velocity(heading_of(p), input, accel),
        ..p
    }
}

/// Position and speed along one axis after moving for `delta_time` at
/// `velocity`, losing the share `friction` of the speed, and being held to
/// `[lo, hi]`. Where the position is held back, the speed is zero.
pub open spec fn moved(
    position: int,
    velocity: int,
    friction: int,
    delta_time: int,
    lo: int,
    hi: int,
) -> (int, int) {
    let free = position + scaled_mul(velocity, delta_time);
    if free < lo {
        (lo, 0)
    } else if free > hi {
        (hi, 0)
    } else {
        (free, scaled_mul(velocity, SCALE - friction))
    }
}

/// The paddle after it has moved for `delta_time`.
pub open spec fn displaced(p: PaddleModel, delta_time: int) -> PaddleModel {
    let x = moved(
        p.x,
        p.velocity_x,
        p.friction,
        delta_time,
        p.width / 2,
        TABLE_WIDTH - p.width / 2,
    );
    let y = moved(p.y, p.velocity_y, p.friction, delta_time, 0, TABLE_HEIGHT as int);
    PaddleModel { x: x.0, velocity_x: x.1, y: y.0, velocity_y: y.1, ..p }
}

/// The paddle after one tick of `delta_time` under `input`.
pub open spec fn computed(p: PaddleModel, input: PlayerInputState, delta_time: int) -> PaddleModel {
    displaced(rotated(accelerated(p, input), input, ROT_ACCELERATION as int), delta_time)
}

/// A tick keeps a paddle well formed.
pub proof fn lemma_computed_wf(p: PaddleModel, input: PlayerInputState, delta_time: int)
    requires
        p.wf(),
    ensures
        computed(p, input, delta_time).wf(),
{
    let a = accelerated(p, input);
    assert(a.wf());
    lemma_turned_wf(heading_of(a), input, ROT_ACCELERATION as int);
    let r = rotated(a, input, ROT_ACCELERATION as int);
    assert(r.wf());
    lemma_friction_bounds(r.velocity_x, r.friction);
    lemma_friction_bounds(r.velocity_y, r.friction);
}

/// Friction never grows a speed.
pub proof fn lemma_friction_bounds(velocity: int, friction: int)
    requires
        0 <= friction <= SCALE,
    ensures
        velocity >= 0 ==> 0 <= scaled_mul(velocity, SCALE - friction) <= velocity,
        velocity <= 0 ==> velocity <= scaled_mul(velocity, SCALE - friction) <= 0,
{
    let keep = SCALE - friction;
    let product = velocity * keep;
    if velocity >= 0 {
        assert(0 <= product <= velocity * 1000) by (nonlinear_arith)
            requires
                product == velocity * keep,
                0 <= keep <= 1000,
                velocity >= 0,
        ;
        vstd::arithmetic::div_mod::lemma_div_is_ordered(product, velocity * 1000, 1000);
        vstd::arithmetic::div_mod::lemma_div_pos_is_pos(product, 1000);
    }
    if velocity <= 0 {
        assert(0 <= -product <= (-velocity) * 1000) by (nonlinear_arith)
            requires
                product == velocity * keep,
                0 <= keep <= 1000,
                velocity <= 0,
        ;
        vstd::arithmetic::div_mod::lemma_div_is_ordered(-product, (-velocity) * 1000, 1000);
        vstd::arithmetic::div_mod::lemma_div_pos_is_pos(-product, 1000);
    }
}

/// The paddle after a run of ticks of `delta_time` each, one input per tick.
pub open spec fn computed_through(
    p: PaddleModel,
    inputs: Seq<PlayerInputState>,
    delta_time: int,
) -> PaddleModel
    decreases inputs.len(),
{
    if inputs.len() == 0 {
        p
    } else {
        computed_through(computed(p, inputs[0], delta_time), inputs.drop_first(), delta_time)
    }
}

/// Where the paddle would be after moving for `delta_time`, were there no
/// table edge.
pub open spec fn free_position(position: int, velocity: int, delta_time: int) -> int {
    position + scaled_mul(velocity, delta_time)
}

/// After one tick the paddle lies on the table, whatever its speed, its
/// friction and the length of the tick; and along an axis on which the table
/// edge held it back, its speed is exactly zero.
pub proof fn lemma_stays_on_table(p: PaddleModel, input: PlayerInputState, delta_time: int)
    requires
        p.wf(),
    ensures
        p.width / 2 <= computed(p, input, delta_time).x <= TABLE_WIDTH - p.width / 2,
        0 <= computed(p, input, delta_time).y <= TABLE_HEIGHT,
        computed(p, input, delta_time).width == p.width,
        ({
            let free = free_position(p.x, accelerated(p, input).velocity_x, delta_time);
            free < p.width / 2 || free > TABLE_WIDTH - p.width / 2
        }) ==> computed(p, input, delta_time).velocity_x == 0,
        ({
            let free = free_position(p.y, accelerated(p, input).velocity_y, delta_time);
            free < 0 || free > TABLE_HEIGHT
        }) ==> computed(p, input, delta_time).velocity_y == 0,
{
}

/// The heading of a paddle follows the turning law, tick by tick.
pub proof fn lemma_heading_through(
    p: PaddleModel,
    inputs: Seq<PlayerInputState>,
    delta_time: int,
)
    ensures
        heading_of(computed_through(p, inputs, delta_time)) == turned_through(
            heading_of(p),
            inputs,
            ROT_ACCELERATION as int,
        ),
    decreases inputs.len(),
{
    if inputs.len() > 0 {
        let next = computed(p, inputs[0], delta_time);
        assert(heading_of(next) == turned(heading_of(p), inputs[0], ROT_ACCELERATION as int));
        lemma_heading_through(next, inputs.drop_first(), delta_time);
    }
}

/// Ticks of the standalone paddle after which a turn has come to rest.
pub const SETTLE_TICKS: usize = 56;

/// From any rotation and toward any stop, `SETTLE_TICKS` ticks without
/// rotate input leave the paddle exactly on its stop, with no intent.
pub proof fn lemma_compute_settles(
    p: PaddleModel,
    inputs: Seq<PlayerInputState>,
    delta_time: int,
)
    requires
        p.wf(),
        forall|i: int| 0 <= i < inputs.len() ==> no_rotate(#[trigger] inputs[i]),
        inputs.len() >= SETTLE_TICKS,
    ensures
        computed_through(p, inputs, delta_time).rotation == p.next_stop,
        computed_through(p, inputs, delta_time).next_stop == p.next_stop,
        computed_through(p, inputs, delta_time).rotating == RotatingM::Neither,
{
    lemma_heading_through(p, inputs, delta_time);
    lemma_standalone_settles(heading_of(p), inputs);
}

/// A paddle on its stop that gets no rotate input keeps its rotation through
/// any run of ticks, and after the first of them has no intent.
pub proof fn lemma_compute_keeps_rest(
    p: PaddleModel,
    inputs: Seq<PlayerInputState>,
    delta_time: int,
)
    requires
        p.wf(),
        p.rotation == p.next_stop,
        forall|i: int| 0 <= i < inputs.len() ==> no_rotate(#[trigger] inputs[i]),
    ensures
        computed_through(p, inputs, delta_time).rotation == p.rotation,
        computed_through(p, inputs, delta_time).next_stop == p.next_stop,
        inputs.len() >= 1 ==> computed_through(p, inputs, delta_time).rotating
            == RotatingM::Neither,
        inputs.len() >= 1 ==> computed_through(p, inputs, delta_time).rotation_velocity == 0,
    decreases inputs.len(),
{
    lemma_heading_through(p, inputs, delta_time);
    if inputs.len() > 0 {
        let accel = ROT_ACCELERATION as int;
        let rest = inputs.drop_first();
        let next = computed(p, inputs[0], delta_time);
        lemma_rest_is_kept(heading_of(p), inputs[0], accel);
        lemma_computed_wf(p, inputs[0], delta_time);
        assert forall|i: int| 0 <= i < rest.len() implies no_rotate(#[trigger] rest[i]) by {
            assert(rest[i] == inputs[i + 1]);
        }
        lemma_rest_through(heading_of(next), rest, accel);
        lemma_compute_keeps_rest(next, rest, delta_time);
        if rest.len() == 0 {
            assert(computed_through(next, rest, delta_time) == next);
        }
    }
}

/// Moves along one axis: see [`moved`].
fn step_axis(
    position: i64,
    velocity: i64,
    friction: i64,
    delta_time: i64,
    lo: i64,
    hi: i64,
) -> (after: (i64, i64))
    requires
        0 <= friction <= SCALE,
        -MAX_SPEED <= velocity <= MAX_SPEED,
        lo <= hi,
    ensures
        (after.0 as int, after.1 as int) == moved(
            position as int,
            velocity as int,
            friction as int,
            delta_time as int,
            lo as int,
            hi as int,
        ),
        lo <= after.0 <= hi,
        -MAX_SPEED <= after.1 <= MAX_SPEED,
{
    proof {
        lemma_friction_bounds(velocity as int, friction as int);
    }
    let travelled: i128 = mul_scaled(velocity, delta_time);
    proof {
        let product = (velocity as int) * (delta_time as int);
        assert(-0x4000_0000_0000_0000_0000_0000_0000_0000 <= product
            <= 0x4000_0000_0000_0000_0000_0000_0000_0000) by (nonlinear_arith)
            requires
                product == (velocity as int) * (delta_time as int),
                -0x8000_0000_0000_0000 <= (velocity as int) <= 0x7fff_ffff_ffff_ffff,
                -0x8000_0000_0000_0000 <= (delta_time as int) <= 0x7fff_ffff_ffff_ffff,
        ;
        lemma_trunc_div_bounds(product, SCALE as int);
    }
    let free: i128 = position as i128 + travelled;
    if free < lo as i128 {
        (lo, 0)
    } else if free > hi as i128 {
        (hi, 0)
    } else {
        let kept: i128 = mul_scaled(velocity, SCALE - friction);
        (free as i64, kept as i64)
    }
}

/// Speed along one axis after the held directions: see [`pushed`].
fn push_axis(
    velocity: i64,
    acceleration: i64,
    grow: bool,
    shrink: bool,
    grow_first: bool,
) -> (after: i64)
    requires
        -MAX_SPEED <= velocity <= MAX_SPEED,
        0 <= acceleration <= MAX_SPEED,
    ensures
        after == pushed(velocity as int, acceleration as int, grow, shrink, grow_first),
        -MAX_SPEED <= after <= MAX_SPEED,
{
    let mut v = velocity;
    if grow_first && grow {
        v = v + acceleration;
        if v > MAX_SPEED {
            v = MAX_SPEED;
        }
    }
    if shrink {
        v = v - acceleration;
        if v < -MAX_SPEED {
            v = -MAX_SPEED;
        }
    }
    if !grow_first && grow {
        v = v + acceleration;
        if v > MAX_SPEED {
            v = MAX_SPEED;
        }
    }
    v
}

/// Advances `paddle` by one tick of `delta_time` thousandths of a second,
/// under the inputs that `handler` reports.
pub fn compute(handler: &dyn InputHandler, paddle: &mut Paddle, delta_time: i64)
    requires
        old(paddle).wf(),
    ensures
        final(paddle)@ == computed(old(paddle)@, handler.state(), delta_time as int),
        final(paddle).wf(),
        old(paddle)@.width / 2 <= final(paddle)@.x <= TABLE_WIDTH - old(paddle)@.width / 2,
        0 <= final(paddle)@.y <= TABLE_HEIGHT,
{
    let input = PlayerInputState {
        up: handler.is_up(),
        down: handler.is_down(),
        left: handler.is_left(),
        right: handler.is_right(),
        rotate_cw: handler.is_rotating_cw(),
        rotate_acw: handler.is_rotating_acw(),
    };
    assert(input == handler.state());
    proof {
        lemma_computed_wf(paddle@, input, delta_time as int);
    }

    paddle.velocity_x = push_axis(
        paddle.velocity_x,
        paddle.acceleration,
        input.right,
        input.left,
        true,
    );
    paddle.velocity_y = push_axis(
        paddle.velocity_y,
        paddle.acceleration,
        input.down,
        input.up,
        false,
    );
    assert(paddle@ == accelerated(old(paddle)@, input));

    let heading = turn(
        paddle.rotation,
        paddle.next_stop,
        paddle.rotating,
        &input,
        ROT_ACCELERATION,
    );
    paddle.rotation = heading.0;
    paddle.next_stop = heading.1;
    paddle.rotating = heading.2;
    paddle.rotation_velocity = heading.3;
    assert(paddle@ == rotated(accelerated(old(paddle)@, input), input, ROT_ACCELERATION as int));

    let half = paddle.width / 2;
    let x = step_axis(
        paddle.x,
        paddle.velocity_x,
        paddle.friction,
        delta_time,
        half,
        TABLE_WIDTH - half,
    );
    let y = step_axis(paddle.y, paddle.velocity_y, paddle.friction, delta_time, 0, TABLE_HEIGHT);
    paddle.x = x.0;
    paddle.velocity_x = x.1;
    paddle.y = y.0;
    paddle.velocity_y = y.1;
}

} // verus!
