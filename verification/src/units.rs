//! Fixed-point conventions shared by the whole simulation.
//!
//! A value `v` of any physical quantity is stored as the integer `1000 * v`,
//! rounded toward zero where a product or a quotient does not come out even.

use vstd::prelude::*;

verus! {

/// Stored units per whole unit.
pub const SCALE: i64 = 1_000;

/// One full turn, in thousandths of a degree.
pub const FULL_TURN: i64 = 360_000;

/// The distance between two neighbouring stops.
pub const QUARTER_TURN: i64 = 90_000;

/// Below this distance to its stop a paddle gives up its rotation intent.
pub const NEAR_THRESHOLD: i64 = 30_000;

/// At or below this distance to its stop a paddle snaps onto the stop.
pub const SNAP_EPSILON: i64 = 500;

/// The largest rotation of one tick, in either direction.
pub const MAX_ROTATION_STEP: i64 = 8_000;

/// Angular acceleration of the standalone paddle.
pub const ROT_ACCELERATION: u32 = 800;

/// The largest rotational acceleration for which every turn is known to
/// settle: one stored unit more than twice the snap distance.
pub const MAX_SETTLING_ACCELERATION: u32 = 1_001;

/// Speed limit of the standalone paddle along each axis.
pub const MAX_SPEED: i64 = 1_500_000;

/// Extent of the table along x.
pub const TABLE_WIDTH: i64 = 800_000;

/// Extent of the table along y.
pub const TABLE_HEIGHT: i64 = 600_000;

/// Quotient rounded toward zero, the rounding of machine division.
pub open spec fn trunc_div(n: int, d: int) -> int {
    if n >= 0 {
        n / d
    } else {
        -((-n) / d)
    }
}

/// Product of two stored quantities, brought back to the stored scale.
pub open spec fn scaled_mul(a: int, b: int) -> int {
    trunc_div(a * b, SCALE as int)
}

/// `x` held to the closed interval from `lo` to `hi`.
pub open spec fn clamp(x: int, lo: int, hi: int) -> int {
    if x < lo {
        lo
    } else if x > hi {
        hi
    } else {
        x
    }
}

/// `x` held to what a stored quantity can represent.
pub open spec fn saturated(x: int) -> int {
    clamp(x, i64::MIN as int, i64::MAX as int)
}

/// Rounding toward zero never grows a magnitude and keeps the sign.
pub proof fn lemma_trunc_div_bounds(n: int, d: int)
    requires
        d > 0,
    ensures
        n >= 0 ==> 0 <= trunc_div(n, d) <= n,
        n <= 0 ==> n <= trunc_div(n, d) <= 0,
        trunc_div(-n, d) == -trunc_div(n, d),
{
    if n >= 0 {
        vstd::arithmetic::div_mod::lemma_div_pos_is_pos(n, d);
        vstd::arithmetic::div_mod::lemma_div_is_ordered_by_denominator(n, 1, d);
        vstd::arithmetic::div_mod::lemma_div_basics(n);
    }
    if n <= 0 {
        vstd::arithmetic::div_mod::lemma_div_pos_is_pos(-n, d);
        vstd::arithmetic::div_mod::lemma_div_is_ordered_by_denominator(-n, 1, d);
        vstd::arithmetic::div_mod::lemma_div_basics(-n);
    }
}

/// Product of two stored quantities at the stored scale, computed without
/// intermediate overflow.
pub fn mul_scaled(a: i64, b: i64) -> (r: i128)
    ensures
        r == scaled_mul(a as int, b as int),
{
    assert(-0x4000_0000_0000_0000_0000_0000_0000_0000 <= (a as int) * (b as int)
        <= 0x4000_0000_0000_0000_0000_0000_0000_0000) by (nonlinear_arith)
        requires
            -0x8000_0000_0000_0000 <= (a as int) <= 0x7fff_ffff_ffff_ffff,
            -0x8000_0000_0000_0000 <= (b as int) <= 0x7fff_ffff_ffff_ffff,
    ;
    let wide: i128 = (a as i128) * (b as i128);
    wide / (SCALE as i128)
}

/// Brings a wide intermediate result back to a stored quantity, holding it
/// to the ends of the representable range.
pub fn saturate(x: i128) -> (r: i64)
    ensures
        r == saturated(x as int),
{
    if x < i64::MIN as i128 {
        i64::MIN
    } else if x > i64::MAX as i128 {
        i64::MAX
    } else {
        x as i64
    }
}

} // verus!
