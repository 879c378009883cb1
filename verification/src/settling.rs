//! What is proved of the turning law: a paddle that gets no rotate input
//! comes to rest on its target within a bounded number of ticks, stays
//! there, and never passes its target by more than one step.

use vstd::prelude::*;
use crate::angle::{
    acw_arc, ang_dist, cw_arc, is_angle, lemma_arcs_complement, lemma_next_stop_acw,
    lemma_next_stop_cw, normalize,
};
use crate::input::PlayerInputState;
use crate::isqrt::{
    isqrt, lemma_isqrt, lemma_isqrt_lower, lemma_isqrt_monotonic, lemma_isqrt_upper,
    lemma_square_monotonic,
};
use crate::paddle::RotatingM;
use crate::rotation::{
    aimed, displacement, is_far, settled_intent, turn_velocity, turned, Heading,
};
use crate::units::{
    FULL_TURN, MAX_ROTATION_STEP, MAX_SETTLING_ACCELERATION, NEAR_THRESHOLD, ROT_ACCELERATION,
    SNAP_EPSILON,
};

verus! {

/// Neither rotate input is held.
pub open spec fn no_rotate(input: PlayerInputState) -> bool {
    !input.rotate_cw && !input.rotate_acw
}

/// The heading lies on its target and has no intent.
pub open spec fn at_rest(h: Heading) -> bool {
    h.rotation == h.next_stop && h.rotating == RotatingM::Neither
}

/// The way that is left to the target, along the arc that the next tick
/// without rotate input would take.
pub open spec fn remaining(h: Heading) -> int {
    let d = displacement(Heading { rotating: settled_intent(h), ..h });
    if d >= 0 {
        d
    } else {
        -d
    }
}

/// The accelerations for which settling is proved.
pub open spec fn settling(accel: int) -> bool {
    1 <= accel <= MAX_SETTLING_ACCELERATION
}

/// The least speed of a tick that does not snap.
pub open spec fn min_step(accel: int) -> int {
    isqrt(2 * accel * (SNAP_EPSILON + 1))
}

/// The speed of a tick without rotate input at the distance `way` from the
/// target.
pub open spec fn stride(accel: int, way: int) -> int {
    vstd::math::min(isqrt(2 * accel * way), MAX_ROTATION_STEP as int)
}

/// The headings after each of a run of ticks, one input per tick.
pub open spec fn turned_through(h: Heading, inputs: Seq<PlayerInputState>, accel: int) -> Heading
    decreases inputs.len(),
{
    if inputs.len() == 0 {
        h
    } else {
        turned_through(turned(h, inputs[0], accel), inputs.drop_first(), accel)
    }
}

/// A run of this many ticks without rotate input brings every heading to
/// rest.
pub open spec fn settle_ticks(accel: int) -> int {
    (FULL_TURN as int) / min_step(accel) + 2
}

/// The least step is positive and far below the largest step.
pub proof fn lemma_min_step(accel: int)
    requires
        settling(accel),
    ensures
        1 <= min_step(accel) <= MAX_SETTLING_ACCELERATION,
{
    let n = 2 * accel * (SNAP_EPSILON + 1);
    assert(n == 1002 * accel) by (nonlinear_arith)
        requires
            n == 2 * accel * (SNAP_EPSILON + 1),
            SNAP_EPSILON == 500,
    ;
    lemma_isqrt_lower(n, 1);
    lemma_isqrt_upper(n, 1002);
}

/// Without rotate input a heading on its target stays there, at speed zero
/// and without intent, whatever its intent was.
pub proof fn lemma_rest_is_kept(h: Heading, input: PlayerInputState, accel: int)
    requires
        h.wf(),
        no_rotate(input),
        h.rotation == h.next_stop,
    ensures
        at_rest(turned(h, input, accel)),
        turned(h, input, accel).next_stop == h.next_stop,
        turn_velocity(h, input, accel) == 0,
{
    lemma_arcs_complement(h.rotation, h.next_stop);
}

/// Without rotate input a heading within the snap distance of its target
/// lands on it, at speed zero and without intent.
pub proof fn lemma_snaps(h: Heading, input: PlayerInputState, accel: int)
    requires
        h.wf(),
        no_rotate(input),
        ang_dist(h.rotation, h.next_stop) <= SNAP_EPSILON,
    ensures
        at_rest(turned(h, input, accel)),
        turned(h, input, accel).next_stop == h.next_stop,
        turn_velocity(h, input, accel) == 0,
{
    lemma_arcs_complement(h.rotation, h.next_stop);
}

/// Turning clockwise by no more than the clockwise arc shortens that arc by
/// as much; turning further leaves the target behind by the excess.
pub proof fn lemma_turn_clockwise(rotation: int, target: int, step: int)
    requires
        is_angle(rotation),
        is_angle(target),
        0 <= step <= MAX_ROTATION_STEP,
    ensures
        is_angle(normalize(rotation + step)),
        step <= cw_arc(rotation, target) ==> cw_arc(normalize(rotation + step), target) == cw_arc(
            rotation,
            target,
        ) - step,
        step > cw_arc(rotation, target) ==> acw_arc(normalize(rotation + step), target) == step
            - cw_arc(rotation, target),
{
}

/// Turning anticlockwise by no more than the anticlockwise arc shortens that
/// arc by as much; turning further leaves the target behind by the excess.
pub proof fn lemma_turn_anticlockwise(rotation: int, target: int, step: int)
    requires
        is_angle(rotation),
        is_angle(target),
        0 <= step <= MAX_ROTATION_STEP,
    ensures
        is_angle(normalize(rotation - step)),
        step <= acw_arc(rotation, target) ==> acw_arc(normalize(rotation - step), target)
            == acw_arc(rotation, target) - step,
        step > acw_arc(rotation, target) ==> cw_arc(normalize(rotation - step), target) == step
            - acw_arc(rotation, target),
{
}

/// The kinematic speed for a way beyond the snap distance is at least the
/// least step, and exceeds the way by no more than the snap distance, which
/// it can do only on a way shorter than the near threshold.
pub proof fn lemma_kinematic_speed(accel: int, way: int)
    requires
        settling(accel),
        way > SNAP_EPSILON,
    ensures
        isqrt(2 * accel * way) >= min_step(accel),
        isqrt(2 * accel * way) > way ==> way < NEAR_THRESHOLD && isqrt(2 * accel * way) - way
            <= SNAP_EPSILON,
{
    let root = isqrt(2 * accel * way);
    assert(0 <= 2 * accel * (SNAP_EPSILON + 1) <= 2 * accel * way && 2 * accel * way <= 2002 * way)
        by (nonlinear_arith)
        requires
            1 <= accel <= 1001,
            way > SNAP_EPSILON,
            SNAP_EPSILON == 500,
    ;
    lemma_isqrt(2 * accel * way);
    lemma_isqrt_monotonic(2 * accel * (SNAP_EPSILON + 1), 2 * accel * way);
    if root > way {
        lemma_square_monotonic(way + 1, root);
        assert(way < 2002 && root < way + SNAP_EPSILON + 1) by (nonlinear_arith)
            requires
                (way + 1) * (way + 1) <= root * root,
                root * root <= 2002 * way,
                way > 0,
                root > way,
                SNAP_EPSILON == 500,
        ;
    }
}

/// Without rotate input a heading further from its target than the snap
/// distance comes closer by the speed that its distance gives, which is at
/// least the least step, or to within the snap distance.
pub proof fn lemma_approaches(h: Heading, input: PlayerInputState, accel: int)
    requires
        h.wf(),
        no_rotate(input),
        settling(accel),
        ang_dist(h.rotation, h.next_stop) > SNAP_EPSILON,
    ensures
        turned(h, input, accel).wf(),
        turned(h, input, accel).next_stop == h.next_stop,
        remaining(h) > SNAP_EPSILON,
        stride(accel, remaining(h)) >= min_step(accel),
        remaining(turned(h, input, accel)) <= remaining(h) - stride(accel, remaining(h))
            || remaining(turned(h, input, accel)) <= SNAP_EPSILON,
{
    let h1 = aimed(h, input);
    let after = turned(h, input, accel);
    let way = remaining(h);
    let root = isqrt(2 * accel * way);
    let speed = if root <= MAX_ROTATION_STEP {
        root
    } else {
        MAX_ROTATION_STEP as int
    };
    let cw = cw_arc(h.rotation, h.next_stop);
    let acw = acw_arc(h.rotation, h.next_stop);
    lemma_arcs_complement(h.rotation, h.next_stop);
    lemma_min_step(accel);
    lemma_kinematic_speed(accel, way);
    lemma_isqrt(2 * accel * way);
    assert(h1.rotation == h.rotation && h1.next_stop == h.next_stop);
    assert(is_far(h, input));
    assert(after.next_stop == h.next_stop);
    assert(after.rotating == h1.rotating);
    if displacement(h1) >= 0 {
        assert(way == cw);
        assert(turn_velocity(h, input, accel) == speed);
        assert(after.rotation == normalize(h.rotation + speed));
        lemma_turn_clockwise(h.rotation, h.next_stop, speed);
        lemma_arcs_complement(after.rotation, after.next_stop);
        if speed > way {
            assert(h1.rotating == RotatingM::Neither);
            assert(remaining(after) <= SNAP_EPSILON);
        } else {
            assert(cw_arc(after.rotation, after.next_stop) == way - speed);
            assert(remaining(after) <= way - speed);
        }
    } else {
        assert(way == acw);
        assert(turn_velocity(h, input, accel) == -speed);
        assert(after.rotation == normalize(h.rotation - speed));
        lemma_turn_anticlockwise(h.rotation, h.next_stop, speed);
        lemma_arcs_complement(after.rotation, after.next_stop);
        if speed > way {
            assert(h1.rotating == RotatingM::Neither);
            assert(remaining(after) <= SNAP_EPSILON);
        } else {
            assert(acw_arc(after.rotation, after.next_stop) == way - speed);
            assert(remaining(after) <= way - speed);
        }
    }
}

/// Whether this tick takes the paddle up to its target or past it: it snaps,
/// or its speed covers the way that was left.
pub open spec fn reaches_target(h: Heading, input: PlayerInputState, accel: int) -> bool {
    let way = displacement(aimed(h, input));
    let speed = turn_velocity(h, input, accel);
    !is_far(h, input) || (way >= 0 && speed >= way) || (way < 0 && speed <= way)
}

/// In no tick, whatever the input and the acceleration, is the speed more
/// than the largest step; and a paddle that reaches or passes its target in
/// a tick ends within the largest step of it.
pub proof fn lemma_overshoot_bounded(h: Heading, input: PlayerInputState, accel: int)
    requires
        h.wf(),
        0 <= accel,
    ensures
        -MAX_ROTATION_STEP <= turn_velocity(h, input, accel) <= MAX_ROTATION_STEP,
        reaches_target(h, input, accel) ==> ang_dist(
            turned(h, input, accel).rotation,
            turned(h, input, accel).next_stop,
        ) <= MAX_ROTATION_STEP,
{
    lemma_next_stop_cw(h.rotation);
    lemma_next_stop_acw(h.rotation);
    let aim = aimed(h, input);
    let after = turned(h, input, accel);
    let speed = turn_velocity(h, input, accel);
    lemma_arcs_complement(aim.rotation, aim.next_stop);
    lemma_arcs_complement(after.rotation, after.next_stop);
    if is_far(h, input) {
        if speed >= 0 {
            lemma_turn_clockwise(aim.rotation, aim.next_stop, speed);
        } else {
            lemma_turn_anticlockwise(aim.rotation, aim.next_stop, -speed);
        }
    }
}

/// Without rotate input, and with an acceleration for which settling is
/// proved, a paddle that reaches or passes its target in a tick ends within
/// the snap distance of it.
pub proof fn lemma_overshoot_snaps(h: Heading, input: PlayerInputState, accel: int)
    requires
        h.wf(),
        no_rotate(input),
        settling(accel),
        reaches_target(h, input, accel),
    ensures
        ang_dist(turned(h, input, accel).rotation, turned(h, input, accel).next_stop)
            <= SNAP_EPSILON,
{
    let aim = aimed(h, input);
    let after = turned(h, input, accel);
    let speed = turn_velocity(h, input, accel);
    lemma_arcs_complement(h.rotation, h.next_stop);
    lemma_arcs_complement(after.rotation, after.next_stop);
    if is_far(h, input) {
        let way = remaining(h);
        lemma_kinematic_speed(accel, way);
        lemma_isqrt(2 * accel * way);
        if speed >= 0 {
            lemma_turn_clockwise(aim.rotation, aim.next_stop, speed);
        } else {
            lemma_turn_anticlockwise(aim.rotation, aim.next_stop, -speed);
        }
    }
}

/// Without rotate input a heading at rest stays at rest through any run of
/// ticks.
pub proof fn lemma_rest_through(h: Heading, inputs: Seq<PlayerInputState>, accel: int)
    requires
        h.wf(),
        at_rest(h),
        forall|i: int| 0 <= i < inputs.len() ==> no_rotate(#[trigger] inputs[i]),
    ensures
        turned_through(h, inputs, accel) == h,
    decreases inputs.len(),
{
    if inputs.len() > 0 {
        lemma_rest_is_kept(h, inputs[0], accel);
        let rest = inputs.drop_first();
        assert forall|i: int| 0 <= i < rest.len() implies no_rotate(#[trigger] rest[i]) by {
            assert(rest[i] == inputs[i + 1]);
        }
        lemma_rest_through(turned(h, inputs[0], accel), rest, accel);
    }
}

/// Without rotate input a heading reaches its target exactly and rests there
/// once the run is long enough for the way that was left: one tick to snap,
/// and one for each least step of the way beyond the snap distance.
pub proof fn lemma_settles_after(h: Heading, inputs: Seq<PlayerInputState>, accel: int)
    requires
        h.wf(),
        settling(accel),
        forall|i: int| 0 <= i < inputs.len() ==> no_rotate(#[trigger] inputs[i]),
        inputs.len() >= 1,
        (inputs.len() - 1) * min_step(accel) + SNAP_EPSILON >= remaining(h),
    ensures
        at_rest(turned_through(h, inputs, accel)),
        turned_through(h, inputs, accel).next_stop == h.next_stop,
    decreases inputs.len(),
{
    let rest = inputs.drop_first();
    let next = turned(h, inputs[0], accel);
    let least = min_step(accel);
    assert forall|i: int| 0 <= i < rest.len() implies no_rotate(#[trigger] rest[i]) by {
        assert(rest[i] == inputs[i + 1]);
    }
    lemma_min_step(accel);
    if ang_dist(h.rotation, h.next_stop) <= SNAP_EPSILON {
        lemma_snaps(h, inputs[0], accel);
        crate::rotation::lemma_turned_wf(h, inputs[0], accel);
        lemma_rest_through(next, rest, accel);
    } else {
        lemma_approaches(h, inputs[0], accel);
        let n = inputs.len() - 1;
        assert(n >= 1 && (n - 1) * least + SNAP_EPSILON >= remaining(next)) by (nonlinear_arith)
            requires
                n * least + SNAP_EPSILON >= remaining(h),
                remaining(h) > SNAP_EPSILON,
                remaining(next) <= remaining(h) - stride(accel, remaining(h)) || remaining(next)
                    <= SNAP_EPSILON,
                stride(accel, remaining(h)) >= least,
                least >= 1,
                n >= 0,
        ;
        lemma_settles_after(next, rest, accel);
    }
}

/// Without rotate input every heading rests on its target after
/// `settle_ticks` ticks, from wherever it started.
pub proof fn lemma_settles(h: Heading, inputs: Seq<PlayerInputState>, accel: int)
    requires
        h.wf(),
        settling(accel),
        forall|i: int| 0 <= i < inputs.len() ==> no_rotate(#[trigger] inputs[i]),
        inputs.len() >= settle_ticks(accel),
    ensures
        at_rest(turned_through(h, inputs, accel)),
        turned_through(h, inputs, accel).next_stop == h.next_stop,
{
    let least = min_step(accel);
    lemma_min_step(accel);
    lemma_arcs_complement(h.rotation, h.next_stop);
    assert(remaining(h) < FULL_TURN);
    let q = (FULL_TURN as int) / least;
    vstd::arithmetic::div_mod::lemma_fundamental_div_mod(FULL_TURN as int, least);
    vstd::arithmetic::div_mod::lemma_mod_bound(FULL_TURN as int, least);
    assert((inputs.len() - 1) * least >= remaining(h)) by (nonlinear_arith)
        requires
            inputs.len() - 1 >= q + 1,
            FULL_TURN == least * q + (FULL_TURN as int % least),
            0 <= (FULL_TURN as int % least) < least,
            remaining(h) < FULL_TURN,
            least >= 1,
    ;
    lemma_settles_after(h, inputs, accel);
}

/// A measure of the ticks that the standalone paddle still needs at the
/// distance `way` from its target: eight thousand for each tick. It grows
/// more slowly with the distance the further the paddle is away, as the
/// paddle is the faster the further it is away.
pub open spec fn effort(way: int) -> int {
    if way <= SNAP_EPSILON {
        0
    } else if way <= 2_500 {
        8_000 + 8 * (way - SNAP_EPSILON)
    } else if way <= 10_000 {
        24_000 + 4 * (way - 2_500)
    } else if way <= 40_000 {
        54_000 + 2 * (way - 10_000)
    } else {
        114_000 + (way - 40_000)
    }
}

/// Ticks without rotate input after which the standalone paddle rests on its
/// target, from wherever it started.
pub open spec fn standalone_settle_ticks() -> int {
    56
}

/// How fast the standalone paddle is at least, by its distance from the
/// target.
pub proof fn lemma_standalone_stride(way: int)
    requires
        way > SNAP_EPSILON,
    ensures
        stride(ROT_ACCELERATION as int, way) >= 895,
        way >= 625 ==> stride(ROT_ACCELERATION as int, way) >= 1_000,
        way >= 2_500 ==> stride(ROT_ACCELERATION as int, way) >= 2_000,
        way >= 10_000 ==> stride(ROT_ACCELERATION as int, way) >= 4_000,
        way >= 40_000 ==> stride(ROT_ACCELERATION as int, way) == 8_000,
{
    let n = 2 * (ROT_ACCELERATION as int) * way;
    assert(n == 1_600 * way);
    lemma_isqrt_lower(n, 895);
    if way >= 625 {
        lemma_isqrt_lower(n, 1_000);
    }
    if way >= 2_500 {
        lemma_isqrt_lower(n, 2_000);
    }
    if way >= 10_000 {
        lemma_isqrt_lower(n, 4_000);
    }
    if way >= 40_000 {
        lemma_isqrt_lower(n, 8_000);
    }
}

/// Each tick without rotate input that does not snap takes one tick's worth
/// off the effort of the standalone paddle.
pub proof fn lemma_effort_shrinks(h: Heading, input: PlayerInputState)
    requires
        h.wf(),
        no_rotate(input),
        ang_dist(h.rotation, h.next_stop) > SNAP_EPSILON,
    ensures
        turned(h, input, ROT_ACCELERATION as int).wf(),
        turned(h, input, ROT_ACCELERATION as int).next_stop == h.next_stop,
        effort(remaining(h)) >= 8_000,
        effort(remaining(turned(h, input, ROT_ACCELERATION as int))) <= effort(remaining(h))
            - 8_000,
{
    lemma_approaches(h, input, ROT_ACCELERATION as int);
    lemma_standalone_stride(remaining(h));
}

/// Without rotate input the standalone paddle rests on its target once the
/// run is one tick longer than its effort asks for.
pub proof fn lemma_standalone_settles_after(h: Heading, inputs: Seq<PlayerInputState>)
    requires
        h.wf(),
        forall|i: int| 0 <= i < inputs.len() ==> no_rotate(#[trigger] inputs[i]),
        inputs.len() >= 1,
        (inputs.len() - 1) * 8_000 >= effort(remaining(h)),
    ensures
        at_rest(turned_through(h, inputs, ROT_ACCELERATION as int)),
        turned_through(h, inputs, ROT_ACCELERATION as int).next_stop == h.next_stop,
    decreases inputs.len(),
{
    let accel = ROT_ACCELERATION as int;
    let rest = inputs.drop_first();
    let next = turned(h, inputs[0], accel);
    assert forall|i: int| 0 <= i < rest.len() implies no_rotate(#[trigger] rest[i]) by {
        assert(rest[i] == inputs[i + 1]);
    }
    if ang_dist(h.rotation, h.next_stop) <= SNAP_EPSILON {
        lemma_snaps(h, inputs[0], accel);
        crate::rotation::lemma_turned_wf(h, inputs[0], accel);
        lemma_rest_through(next, rest, accel);
    } else {
        lemma_effort_shrinks(h, inputs[0]);
        lemma_standalone_settles_after(next, rest);
    }
}

/// Without rotate input the standalone paddle rests on its target after
/// `standalone_settle_ticks` ticks, from wherever it started.
pub proof fn lemma_standalone_settles(h: Heading, inputs: Seq<PlayerInputState>)
    requires
        h.wf(),
        forall|i: int| 0 <= i < inputs.len() ==> no_rotate(#[trigger] inputs[i]),
        inputs.len() >= standalone_settle_ticks(),
    ensures
        at_rest(turned_through(h, inputs, ROT_ACCELERATION as int)),
        turned_through(h, inputs, ROT_ACCELERATION as int).next_stop == h.next_stop,
{
    lemma_arcs_complement(h.rotation, h.next_stop);
    assert(remaining(h) < FULL_TURN);
    lemma_standalone_settles_after(h, inputs);
}

} // verus!
