//! The fisheye correction: distances along a ray are projected onto the
//! facing axis of the player, so that a flat wall looks flat.

use vstd::prelude::*;
use vstd::arithmetic::div_mod::lemma_div_is_ordered;
use crate::fixed::{floor_div_wide, lemma_floor_div_bounds, lemma_mul_bound, magnitude, UNIT};
use crate::raycast::{ray_angle, RAY_COUNT};
use crate::trig::{
    cos_fixed, cosine, lemma_cos_at_most_thirty_off, lemma_cos_one, lemma_sin_periodic,
    normalize_angle, normalized,
};

verus! {

/// A distance along a ray, projected onto the facing axis.
pub open spec fn fisheye_corrected(player_angle: int, ray_angle: int, distance: int) -> int {
    (distance * cos_fixed(player_angle - ray_angle)) / (UNIT as int)
}

/// Removes the fisheye effect from a distance measured along a ray: the
/// distance is projected onto the player's facing axis. The result is never
/// greater in size than the distance. A distance that is not negative
/// never grows by this, and one other than zero stays as it is only where
/// the ray points along the facing angle.
///
/// One input is left out: the least value of the type for a ray that
/// points half a turn off the facing angle, whose result does not fit.
pub fn fix_fisheye(player_angle: i32, current_angle: i32, distance: i64) -> (d: i64)
    requires
        i64::MIN < distance || normalized(player_angle - current_angle) != 180,
    ensures
        d == fisheye_corrected(player_angle as int, current_angle as int, distance as int),
        -magnitude(distance as int) <= d <= magnitude(distance as int),
        normalized(player_angle - current_angle) == 0 ==> d == distance,
        distance >= 0 ==> d <= distance,
        distance > 0 ==> (d == distance <==> normalized(player_angle - current_angle) == 0),
{
    let difference: i32 = normalize_angle(player_angle) - normalize_angle(current_angle);
    proof {
        lemma_sin_periodic(difference as int, player_angle - current_angle);
    }
    let c: i64 = cosine(difference);
    proof {
        lemma_cos_one(player_angle - current_angle);
        lemma_mul_bound(distance as int, c as int, magnitude(distance as int), UNIT as int);
        lemma_fisheye_in_range(player_angle as int, current_angle as int, distance as int);
        if distance >= 0 {
            lemma_fisheye_bounded(player_angle as int, current_angle as int, distance as int);
        }
        if normalized(player_angle - current_angle) == 0 {
            lemma_sin_periodic(player_angle - current_angle, 0);
            lemma_fisheye_straight_ahead(0, distance as int);
        }
        if distance == i64::MIN {
            assert(distance * c < distance * (-UNIT)) by (nonlinear_arith)
                requires
                    distance < 0,
                    c > -UNIT,
            ;
        }
    }
    let product: i128 = (distance as i128) * (c as i128);
    floor_div_wide(product, UNIT as i128) as i64
}

/// The corrected distance is never greater in size than the distance.
pub proof fn lemma_fisheye_in_range(player_angle: int, ray_angle: int, distance: int)
    ensures
        -magnitude(distance) <= fisheye_corrected(player_angle, ray_angle, distance) <= magnitude(
            distance,
        ),
{
    let c = cos_fixed(player_angle - ray_angle);
    lemma_cos_one(player_angle - ray_angle);
    lemma_mul_bound(distance, c, magnitude(distance), UNIT as int);
}

/// Straight ahead nothing is corrected: for a ray at the facing angle the
/// corrected distance is the distance along the ray.
pub proof fn lemma_fisheye_straight_ahead(angle: int, distance: int)
    ensures
        fisheye_corrected(angle, angle, distance) == distance,
{
    lemma_cos_one(0);
    assert((distance * UNIT) / (UNIT as int) == distance) by (nonlinear_arith);
}

/// The correction never lengthens a distance, and it keeps a distance
/// other than zero only where the ray points along the facing angle.
pub proof fn lemma_fisheye_bounded(player_angle: int, ray_angle: int, distance: int)
    requires
        distance >= 0,
    ensures
        fisheye_corrected(player_angle, ray_angle, distance) <= distance,
        distance > 0 ==> (fisheye_corrected(player_angle, ray_angle, distance) == distance
            <==> normalized(player_angle - ray_angle) == 0),
{
    let c = cos_fixed(player_angle - ray_angle);
    lemma_cos_one(player_angle - ray_angle);
    lemma_floor_div_bounds(distance * c, UNIT as int);
    assert(distance * c <= distance * UNIT) by (nonlinear_arith)
        requires
            distance >= 0,
            c <= UNIT,
    ;
    assert(distance > 0 && c < UNIT ==> distance * c <= distance * UNIT - distance)
        by (nonlinear_arith);
    assert(c == UNIT ==> distance * c == distance * UNIT) by (nonlinear_arith);
}

/// Where the ray does not point backwards, a wall further along the ray is
/// no nearer after the correction.
pub proof fn lemma_fisheye_monotone(player_angle: int, ray_angle: int, near: int, far: int)
    requires
        near <= far,
        cos_fixed(player_angle - ray_angle) >= 0,
    ensures
        fisheye_corrected(player_angle, ray_angle, near) <= fisheye_corrected(
            player_angle,
            ray_angle,
            far,
        ),
{
    let c = cos_fixed(player_angle - ray_angle);
    assert(near * c <= far * c) by (nonlinear_arith)
        requires
            near <= far,
            c >= 0,
    ;
    lemma_div_is_ordered(near * c, far * c, UNIT as int);
}

/// No ray of a fan is more than 30 degrees off the facing angle, so the
/// cosine that corrects it is at least that of 30 degrees.
pub proof fn lemma_fan_is_narrow(player_angle: int, index: int)
    requires
        0 <= index < RAY_COUNT,
    ensures
        cos_fixed(player_angle - ray_angle(player_angle, index)) >= 866_025,
{
    lemma_sin_periodic(player_angle - ray_angle(player_angle, index), 30 - index);
    lemma_cos_at_most_thirty_off(30 - index);
}

/// For the rays of a fan the corrected distance grows with the distance
/// along the ray, and is never negative for a distance that is not.
pub proof fn lemma_fan_distance_grows(player_angle: int, index: int, near: int, far: int)
    requires
        0 <= index < RAY_COUNT,
        near <= far,
    ensures
        fisheye_corrected(player_angle, ray_angle(player_angle, index), near)
            <= fisheye_corrected(player_angle, ray_angle(player_angle, index), far),
        0 <= near ==> 0 <= fisheye_corrected(player_angle, ray_angle(player_angle, index), near),
{
    lemma_fan_is_narrow(player_angle, index);
    lemma_fisheye_monotone(player_angle, ray_angle(player_angle, index), near, far);
    if 0 <= near {
        lemma_fisheye_monotone(player_angle, ray_angle(player_angle, index), 0, near);
        let c = cos_fixed(player_angle - ray_angle(player_angle, index));
        assert((0 * c) / (UNIT as int) == 0) by (nonlinear_arith);
    }
}

} // verus!
