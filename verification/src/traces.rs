//! What holds of every trace: its points lie in order along the ray, and its
//! hit is the first of them that is in a wall.

use vstd::prelude::*;
use vstd::arithmetic::div_mod::lemma_div_is_ordered;
use crate::fixed::{
    ceil_div, lemma_ceil_div_is_ordered, lemma_floor_div_bounds, lemma_mul_bound,
    lemma_scaled_by_signs, magnitude, scaled, MAX_COORD, MAX_DISTANCE, UNIT,
};
use crate::map::{GameMap, BLOCKSIZE};
use crate::fisheye::{lemma_fan_distance_grows, lemma_fisheye_bounded};
use crate::raycast::{
    cast_ray, line_at, ray_angle, raw_distance, trace_budget, trace_degenerate, trace_forward,
    trace_from, trace_hit, trace_point, RAY_COUNT,
};
use crate::render::is_drawn;
use crate::trig::{
    cos_fixed, lemma_cos_one, lemma_cos_sign, lemma_sin_periodic, lemma_sin_sign, normalized,
    sin_fixed,
};

verus! {

/// Travel along a ray to the point that lies `a` before the origin on one
/// axis, in units of the ray's direction vector: the part along that axis
/// plus the part along the other.
pub open spec fn travel(a: int, num: int, den: int) -> int {
    den * a + num * scaled(a, num, den)
}

/// The travel has the sign of `a * den`, and its size grows with the size
/// of `a`.
proof fn lemma_travel_grows(a: int, b: int, num: int, den: int)
    requires
        den != 0,
        0 <= a <= b || b <= a <= 0,
    ensures
        (b >= 0) == (den > 0) ==> 0 <= travel(a, num, den) <= travel(b, num, den),
        (b >= 0) != (den > 0) ==> travel(b, num, den) <= travel(a, num, den) <= 0,
{
    let d = magnitude(den);
    let ma = magnitude(a) * magnitude(num);
    let mb = magnitude(b) * magnitude(num);
    lemma_scaled_by_signs(a, num, den);
    lemma_scaled_by_signs(b, num, den);
    assert(ma <= mb) by (nonlinear_arith)
        requires
            ma == magnitude(a) * magnitude(num),
            mb == magnitude(b) * magnitude(num),
            0 <= magnitude(a) <= magnitude(b),
            0 <= magnitude(num),
    ;
    lemma_div_is_ordered(ma, mb, d);
    lemma_ceil_div_is_ordered(ma, mb, d);
    lemma_div_is_ordered(0, ma, d);
    lemma_ceil_div_is_ordered(0, ma, d);
    assert(0int / d == 0 && ceil_div(0, d) == 0) by (nonlinear_arith)
        requires
            d > 0,
    ;
    // The part along the other axis: its size is the size of the numerator
    // times a quotient that grows, and it has the sign of `a * den`.
    let sa = scaled(a, num, den);
    let sb = scaled(b, num, den);
    if a == 0 {
        assert(sa == 0);
        assert(num * sa == 0) by (nonlinear_arith)
            requires
                sa == 0,
        ;
        assert(den * a == 0) by (nonlinear_arith)
            requires
                a == 0,
        ;
    }
    let toward = (b >= 0) == (den > 0);
    // Sizes of the two quotients, each rounded as the signs ask.
    let qa = magnitude(sa);
    let qb = magnitude(sb);
    assert(0 <= qa <= qb);
    assert(magnitude(num) * qa <= magnitude(num) * qb) by (nonlinear_arith)
        requires
            0 <= qa <= qb,
            0 <= magnitude(num),
    ;
    assert(0 <= magnitude(num) * qa) by (nonlinear_arith)
        requires
            0 <= qa,
            0 <= magnitude(num),
    ;
    assert(d * magnitude(a) <= d * magnitude(b) && 0 <= d * magnitude(a)) by (nonlinear_arith)
        requires
            0 <= magnitude(a) <= magnitude(b),
            d > 0,
    ;
    if toward {
        assert(den * a == d * magnitude(a) && den * b == d * magnitude(b)) by (nonlinear_arith)
            requires
                d == magnitude(den),
                (b >= 0) == (den > 0),
                0 <= a <= b || b <= a <= 0,
                den != 0,
        ;
        assert(num * sa == magnitude(num) * qa) by (nonlinear_arith)
            requires
                qa == magnitude(sa),
                (num >= 0 && sa >= 0) || (num <= 0 && sa <= 0),
        ;
        assert(num * sb == magnitude(num) * qb) by (nonlinear_arith)
            requires
                qb == magnitude(sb),
                (num >= 0 && sb >= 0) || (num <= 0 && sb <= 0),
        ;
    } else {
        assert(den * a == -(d * magnitude(a)) && den * b == -(d * magnitude(b)))
            by (nonlinear_arith)
            requires
                d == magnitude(den),
                (b >= 0) != (den > 0),
                0 <= a <= b || b <= a <= 0,
                den != 0,
        ;
        assert(num * sa == -(magnitude(num) * qa)) by (nonlinear_arith)
            requires
                qa == magnitude(sa),
                (num >= 0 && sa <= 0) || (num <= 0 && sa >= 0),
        ;
        assert(num * sb == -(magnitude(num) * qb)) by (nonlinear_arith)
            requires
                qb == magnitude(sb),
                (num >= 0 && sb <= 0) || (num <= 0 && sb >= 0),
        ;
    }
}

/// The points of a trace lie in order along the ray: the distance of a
/// later point from the origin is no less than that of an earlier one, and
/// none is negative. So a wall further along a trace is a wall further
/// away.
pub proof fn lemma_trace_distance_grows(
    vertical: bool,
    px: int,
    py: int,
    angle: int,
    j: int,
    k: int,
)
    requires
        !trace_degenerate(vertical, angle),
        0 <= j <= k,
    ensures
        0 <= raw_distance(
            px,
            py,
            trace_point(vertical, px, py, angle, j).0,
            trace_point(vertical, px, py, angle, j).1,
            angle,
        ) <= raw_distance(
            px,
            py,
            trace_point(vertical, px, py, angle, k).0,
            trace_point(vertical, px, py, angle, k).1,
            angle,
        ),
{
    lemma_sin_sign(angle);
    lemma_cos_sign(angle);
    let s = sin_fixed(angle);
    let c = cos_fixed(angle);
    let forward = trace_forward(vertical, angle);
    let origin = if vertical {
        px
    } else {
        py
    };
    let near = origin - line_at(origin, forward, j);
    let far = origin - line_at(origin, forward, k);
    let near_point = trace_point(vertical, px, py, angle, j);
    let far_point = trace_point(vertical, px, py, angle, k);
    let near_along = c * (near_point.0 - px) - s * (near_point.1 - py);
    let far_along = c * (far_point.0 - px) - s * (far_point.1 - py);
    if vertical {
        lemma_travel_grows(near, far, s, c);
        assert(near_along == -travel(near, s, c)) by (nonlinear_arith)
            requires
                near_along == c * (near_point.0 - px) - s * (near_point.1 - py),
                near_point.0 - px == -near,
                near_point.1 - py == scaled(near, s, c),
                travel(near, s, c) == c * near + s * scaled(near, s, c),
        ;
        assert(far_along == -travel(far, s, c)) by (nonlinear_arith)
            requires
                far_along == c * (far_point.0 - px) - s * (far_point.1 - py),
                far_point.0 - px == -far,
                far_point.1 - py == scaled(far, s, c),
                travel(far, s, c) == c * far + s * scaled(far, s, c),
        ;
    } else {
        lemma_travel_grows(near, far, c, s);
        assert(near_along == travel(near, c, s)) by (nonlinear_arith)
            requires
                near_along == c * (near_point.0 - px) - s * (near_point.1 - py),
                near_point.1 - py == -near,
                near_point.0 - px == scaled(near, c, s),
                travel(near, c, s) == s * near + c * scaled(near, c, s),
        ;
        assert(far_along == travel(far, c, s)) by (nonlinear_arith)
            requires
                far_along == c * (far_point.0 - px) - s * (far_point.1 - py),
                far_point.1 - py == -far,
                far_point.0 - px == scaled(far, c, s),
                travel(far, c, s) == s * far + c * scaled(far, c, s),
        ;
    }
    assert(0 <= near_along <= far_along);
    lemma_div_is_ordered(near_along, far_along, UNIT as int);
    lemma_floor_div_bounds(near_along, UNIT as int);
}

/// `j` is the index of the first point of a trace, from the `k`-th on, that
/// is in a wall of `level`, and all points from the `k`-th up to it are on
/// the map.
pub open spec fn first_wall_at(
    map: GameMap,
    level: int,
    vertical: bool,
    px: int,
    py: int,
    angle: int,
    k: int,
    j: int,
) -> bool {
    &&& k <= j
    &&& forall|i: int|
        k <= i <= j ==> map.in_bounds(
            (#[trigger] trace_point(vertical, px, py, angle, i)).0,
            trace_point(vertical, px, py, angle, i).1,
        )
    &&& forall|i: int|
        k <= i < j ==> map.level_at(
            level,
            (#[trigger] trace_point(vertical, px, py, angle, i)).0,
            trace_point(vertical, px, py, angle, i).1,
        ) == 0
    &&& map.level_at(
        level,
        trace_point(vertical, px, py, angle, j).0,
        trace_point(vertical, px, py, angle, j).1,
    ) != 0
}

/// `j` is the index of the first point of a trace, from the `k`-th on, that
/// is off the map, and no point from the `k`-th up to it is in a wall of
/// `level`.
pub open spec fn leaves_map_at(
    map: GameMap,
    level: int,
    vertical: bool,
    px: int,
    py: int,
    angle: int,
    k: int,
    j: int,
) -> bool {
    &&& k <= j
    &&& forall|i: int|
        k <= i < j ==> map.in_bounds(
            (#[trigger] trace_point(vertical, px, py, angle, i)).0,
            trace_point(vertical, px, py, angle, i).1,
        ) && map.level_at(
            level,
            trace_point(vertical, px, py, angle, i).0,
            trace_point(vertical, px, py, angle, i).1,
        ) == 0
    &&& !map.in_bounds(
        trace_point(vertical, px, py, angle, j).0,
        trace_point(vertical, px, py, angle, j).1,
    )
}

/// A trace reports as its hit the first of its points that is in a wall,
/// and only where no earlier point is off the map.
pub proof fn lemma_trace_stops_at_first_wall(
    map: GameMap,
    level: int,
    vertical: bool,
    px: int,
    py: int,
    angle: int,
    k: int,
)
    ensures
        trace_from(map, level, vertical, px, py, angle, k) matches Some(point) ==> exists|j: int|
            #[trigger] first_wall_at(map, level, vertical, px, py, angle, k, j) && point
                == trace_point(vertical, px, py, angle, j),
    decreases trace_budget(map, vertical, px, py, angle, k),
{
    let here = trace_point(vertical, px, py, angle, k);
    if map.in_bounds(here.0, here.1) {
        if map.level_at(level, here.0, here.1) != 0 {
            assert(first_wall_at(map, level, vertical, px, py, angle, k, k));
        } else {
            lemma_trace_stops_at_first_wall(map, level, vertical, px, py, angle, k + 1);
            match trace_from(map, level, vertical, px, py, angle, k + 1) {
                Some(point) => {
                    let j = choose|j: int|
                        #[trigger] first_wall_at(map, level, vertical, px, py, angle, k + 1, j)
                            && point == trace_point(vertical, px, py, angle, j);
                    assert(first_wall_at(map, level, vertical, px, py, angle, k, j));
                },
                None => {},
            }
        }
    }
}

/// A trace finds the first of its points that is in a wall: where all
/// points up to a point in a wall are on the map and none before it is in a
/// wall, that point is the hit.
pub proof fn lemma_trace_finds_first_wall(
    map: GameMap,
    level: int,
    vertical: bool,
    px: int,
    py: int,
    angle: int,
    k: int,
    j: int,
)
    requires
        first_wall_at(map, level, vertical, px, py, angle, k, j),
    ensures
        trace_from(map, level, vertical, px, py, angle, k) == Some(
            trace_point(vertical, px, py, angle, j),
        ),
    decreases j - k,
{
    let here = trace_point(vertical, px, py, angle, k);
    assert(map.in_bounds(here.0, here.1));
    if k < j {
        assert(map.level_at(level, here.0, here.1) == 0);
        assert(first_wall_at(map, level, vertical, px, py, angle, k + 1, j));
        lemma_trace_finds_first_wall(map, level, vertical, px, py, angle, k + 1, j);
    }
}

/// A trace that leaves the map does so before it meets a wall: where it
/// reports nothing, one of its points is off the map, and all points before
/// that one are on the map and in no wall.
pub proof fn lemma_trace_without_hit_leaves_the_map(
    map: GameMap,
    level: int,
    vertical: bool,
    px: int,
    py: int,
    angle: int,
    k: int,
)
    ensures
        trace_from(map, level, vertical, px, py, angle, k) is None ==> exists|j: int|
            #[trigger] leaves_map_at(map, level, vertical, px, py, angle, k, j),
    decreases trace_budget(map, vertical, px, py, angle, k),
{
    let here = trace_point(vertical, px, py, angle, k);
    if map.in_bounds(here.0, here.1) {
        if map.level_at(level, here.0, here.1) == 0 {
            lemma_trace_without_hit_leaves_the_map(map, level, vertical, px, py, angle, k + 1);
            if trace_from(map, level, vertical, px, py, angle, k + 1) is None {
                let j = choose|j: int|
                    #[trigger] leaves_map_at(map, level, vertical, px, py, angle, k + 1, j);
                assert(leaves_map_at(map, level, vertical, px, py, angle, k, j));
            }
        }
    } else {
        assert(leaves_map_at(map, level, vertical, px, py, angle, k, k));
    }
}

/// Traces depend on the angle only up to whole turns.
pub proof fn lemma_trace_is_periodic(
    map: GameMap,
    level: int,
    vertical: bool,
    px: int,
    py: int,
    angle: int,
    other: int,
)
    requires
        (angle - other) % 360 == 0,
    ensures
        trace_hit(map, level, vertical, px, py, angle) == trace_hit(
            map,
            level,
            vertical,
            px,
            py,
            other,
        ),
{
    lemma_sin_periodic(angle, other);
    assert(normalized(angle) == normalized(other));
    lemma_trace_from_is_periodic(map, level, vertical, px, py, angle, other, 0);
}

/// Traces from their `k`-th point on depend on the angle only up to whole
/// turns.
proof fn lemma_trace_from_is_periodic(
    map: GameMap,
    level: int,
    vertical: bool,
    px: int,
    py: int,
    angle: int,
    other: int,
    k: int,
)
    requires
        (angle - other) % 360 == 0,
    ensures
        trace_from(map, level, vertical, px, py, angle, k) == trace_from(
            map,
            level,
            vertical,
            px,
            py,
            other,
            k,
        ),
    decreases trace_budget(map, vertical, px, py, angle, k),
{
    lemma_sin_periodic(angle, other);
    assert(normalized(angle) == normalized(other));
    let here = trace_point(vertical, px, py, angle, k);
    assert(here == trace_point(vertical, px, py, other, k));
    if map.in_bounds(here.0, here.1) && map.level_at(level, here.0, here.1) == 0 {
        lemma_trace_from_is_periodic(map, level, vertical, px, py, angle, other, k + 1);
    }
}

/// The hit of a trace of a player on the map lies on the map, in a wall of
/// its level, at a distance that is not negative.
pub proof fn lemma_trace_hit_is_sound(
    map: GameMap,
    level: int,
    vertical: bool,
    px: int,
    py: int,
    angle: int,
)
    requires
        map.wf(),
        map.in_bounds(px, py),
    ensures
        trace_hit(map, level, vertical, px, py, angle) matches Some(hit) ==> {
            &&& 0 <= hit.distance <= MAX_DISTANCE
            &&& 0 <= hit.x < map.width * BLOCKSIZE
            &&& 0 <= hit.y < map.length * BLOCKSIZE
            &&& map.level_at(level, hit.x * UNIT, hit.y * UNIT) != 0
        },
{
    if !trace_degenerate(vertical, angle) {
        lemma_trace_stops_at_first_wall(map, level, vertical, px, py, angle, 0);
        match trace_from(map, level, vertical, px, py, angle, 0) {
            Some(point) => {
                let j = choose|j: int|
                    #[trigger] first_wall_at(map, level, vertical, px, py, angle, 0, j) && point
                        == trace_point(vertical, px, py, angle, j);
                lemma_trace_distance_grows(vertical, px, py, angle, 0, j);
                lemma_cos_one(angle);
                lemma_mul_bound(cos_fixed(angle), point.0 - px, UNIT as int, 2 * MAX_COORD);
                lemma_mul_bound(sin_fixed(angle), point.1 - py, UNIT as int, 2 * MAX_COORD);
            },
            None => {},
        }
    }
}

/// What a ray of the fan of a player on the map reports as a hit is sound:
/// its distance is not negative, and its place is in a wall of its level, so
/// that the ray is drawn.
pub proof fn lemma_cast_ray_is_sound(
    map: GameMap,
    px: int,
    py: int,
    player_angle: int,
    level: int,
    index: int,
)
    requires
        map.wf(),
        map.in_bounds(px, py),
        0 <= index < RAY_COUNT,
    ensures
        cast_ray(map, px, py, player_angle, level, index).is_hit() ==> {
            &&& 0 <= cast_ray(map, px, py, player_angle, level, index).distance
            &&& is_drawn(map, level, cast_ray(map, px, py, player_angle, level, index))
        },
{
    let angle = ray_angle(player_angle, index);
    lemma_trace_hit_is_sound(map, level, false, px, py, angle);
    lemma_trace_hit_is_sound(map, level, true, px, py, angle);
    match trace_hit(map, level, false, px, py, angle) {
        Some(hit) => {
            lemma_fan_distance_grows(player_angle, index, 0, hit.distance as int);
            lemma_fisheye_bounded(player_angle, angle, hit.distance as int);
        },
        None => {},
    }
    match trace_hit(map, level, true, px, py, angle) {
        Some(hit) => {
            lemma_fan_distance_grows(player_angle, index, 0, hit.distance as int);
            lemma_fisheye_bounded(player_angle, angle, hit.distance as int);
        },
        None => {},
    }
}

} // verus!
