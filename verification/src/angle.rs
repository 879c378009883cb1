//! Angles on the circle of 360 degrees, and the four stops a paddle rests at.
//!
//! An angle is a count of thousandths of a degree, kept in `[0, FULL_TURN)`.
//! Clockwise is the direction of growing angles.

use vstd::prelude::*;
use crate::units::{FULL_TURN, QUARTER_TURN};

verus! {

/// `a` is a normalized angle.
pub open spec fn is_angle(a: int) -> bool {
    0 <= a < FULL_TURN
}

/// `s` is one of the four rest positions: a multiple of a quarter turn.
pub open spec fn is_stop(s: int) -> bool {
    s == 0 || s == QUARTER_TURN || s == 2 * QUARTER_TURN || s == 3 * QUARTER_TURN
}

/// The angle in `[0, FULL_TURN)` that `a` denotes.
pub open spec fn normalize(a: int) -> int {
    a % (FULL_TURN as int)
}

/// How far to turn clockwise to get from `from` to `to`.
pub open spec fn cw_arc(from: int, to: int) -> int {
    normalize(to - from)
}

/// How far to turn anticlockwise to get from `from` to `to`.
pub open spec fn acw_arc(from: int, to: int) -> int {
    normalize(from - to)
}

/// The angular distance between two angles: the shorter of the two arcs.
pub open spec fn ang_dist(a: int, b: int) -> int {
    vstd::math::min(cw_arc(a, b), acw_arc(a, b))
}

/// The first stop strictly clockwise of `rotation`.
pub open spec fn next_stop_cw(rotation: int) -> int {
    normalize((rotation / (QUARTER_TURN as int) + 1) * QUARTER_TURN)
}

/// The first stop strictly anticlockwise of `rotation`.
pub open spec fn next_stop_acw(rotation: int) -> int {
    normalize(((rotation + QUARTER_TURN - 1) / (QUARTER_TURN as int) - 1) * QUARTER_TURN)
}

/// The two arcs between distinct angles make up the full circle.
pub proof fn lemma_arcs_complement(a: int, b: int)
    requires
        is_angle(a),
        is_angle(b),
    ensures
        a == b ==> cw_arc(a, b) == 0 && acw_arc(a, b) == 0,
        a != b ==> cw_arc(a, b) + acw_arc(a, b) == FULL_TURN,
        a != b ==> 0 < cw_arc(a, b) < FULL_TURN,
        a < b ==> cw_arc(a, b) == b - a,
        a > b ==> cw_arc(a, b) == b - a + FULL_TURN,
        0 <= ang_dist(a, b) <= FULL_TURN / 2,
        ang_dist(a, b) == 0 <==> a == b,
{
}

/// The stop that a clockwise turn heads for lies at most a quarter turn, and
/// more than nothing, ahead.
pub proof fn lemma_next_stop_cw(rotation: int)
    requires
        is_angle(rotation),
    ensures
        is_stop(next_stop_cw(rotation)),
        0 < cw_arc(rotation, next_stop_cw(rotation)) <= QUARTER_TURN,
{
}

/// The stop that an anticlockwise turn heads for lies at most a quarter
/// turn, and more than nothing, behind.
pub proof fn lemma_next_stop_acw(rotation: int)
    requires
        is_angle(rotation),
    ensures
        is_stop(next_stop_acw(rotation)),
        0 < acw_arc(rotation, next_stop_acw(rotation)) <= QUARTER_TURN,
{
}

/// Brings any angle into `[0, FULL_TURN)`.
pub fn normalize_angle(a: i64) -> (r: i64)
    ensures
        r == normalize(a as int),
        is_angle(r as int),
{
    let rem: i64 = a % FULL_TURN;
    if rem < 0 {
        rem + FULL_TURN
    } else {
        rem
    }
}

} // verus!
