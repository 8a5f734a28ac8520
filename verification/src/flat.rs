//! Flat walls: a wall that the player faces squarely is at one distance for
//! every ray that meets it, however far to the side, and that distance is
//! how far the wall lies ahead.

use vstd::prelude::*;
use crate::fisheye::fisheye_corrected;
use crate::fixed::{
    lemma_floor_div_bounds, lemma_mul_bound, lemma_scaled_by_signs, magnitude, scaled, MAX_COORD,
    UNIT,
};
use crate::fisheye::lemma_fisheye_in_range;
use crate::map::GameMap;
use crate::raycast::{
    cast_ray, line_at, ray_angle, raw_distance, trace_degenerate, trace_forward, trace_from,
    trace_hit, trace_point,
};
use crate::traces::{
    first_wall_at, lemma_trace_distance_grows, lemma_trace_hit_is_sound,
    lemma_trace_stops_at_first_wall, travel,
};
use crate::trig::{
    cos_fixed, deltas, lemma_cos_one, lemma_cos_sign, lemma_direction_is_unit, lemma_sin_periodic,
    lemma_sin_sign, lemma_sin_symmetries, normalized, sin_fixed,
};

verus! {

/// How far the grid line of the `k`-th point of a trace lies from the
/// origin of the ray, measured across the line.
pub open spec fn trace_depth(vertical: bool, px: int, py: int, angle: int, k: int) -> int {
    let origin = if vertical {
        px
    } else {
        py
    };
    magnitude(origin - line_at(origin, trace_forward(vertical, angle), k))
}

/// The player faces the grid lines of a trace squarely, on the side to
/// which the ray of the given angle goes: up or down for horizontal lines,
/// left or right for vertical ones.
pub open spec fn faces_squarely(vertical: bool, player_angle: int, angle: int) -> bool {
    normalized(player_angle) == if vertical {
        if trace_forward(vertical, angle) {
            0int
        } else {
            180int
        }
    } else {
        if trace_forward(vertical, angle) {
            270int
        } else {
            90int
        }
    }
}

/// The size of the travel to a point, times the size of the divisor, is
/// the depth of the point times the squared length of the direction, up to
/// the rounding of the one quotient.
proof fn lemma_travel_size(a: int, num: int, den: int)
    requires
        den != 0,
    ensures
        -(magnitude(num) * magnitude(den)) <= magnitude(den) * magnitude(travel(a, num, den))
            - magnitude(a) * (magnitude(den) * magnitude(den) + magnitude(num) * magnitude(num))
            <= magnitude(num) * magnitude(den),
{
    let d = magnitude(den);
    let n = magnitude(num);
    let depth = magnitude(a);
    let m = depth * n;
    let sa = scaled(a, num, den);
    let q = magnitude(sa);
    lemma_scaled_by_signs(a, num, den);
    lemma_floor_div_bounds(m, d);
    lemma_floor_div_bounds(-m, d);
    let e = d * q - m;
    assert(-d < e < d) by (nonlinear_arith)
        requires
            e == d * q - m,
            d > 0,
            q == m / d || q == -((-m) / d),
            d * (m / d) <= m < d * (m / d) + d,
            d * ((-m) / d) <= -m < d * ((-m) / d) + d,
    ;
    let toward = (a >= 0) == (den > 0);
    let t = magnitude(travel(a, num, den));
    if toward {
        assert(den * a == d * depth) by (nonlinear_arith)
            requires
                d == magnitude(den),
                depth == magnitude(a),
                (a >= 0) == (den > 0),
        ;
        assert(num * sa == n * q) by (nonlinear_arith)
            requires
                q == magnitude(sa),
                n == magnitude(num),
                (num >= 0 && sa >= 0) || (num <= 0 && sa <= 0),
        ;
    } else {
        assert(den * a == -(d * depth)) by (nonlinear_arith)
            requires
                d == magnitude(den),
                depth == magnitude(a),
                (a >= 0) != (den > 0),
        ;
        assert(num * sa == -(n * q)) by (nonlinear_arith)
            requires
                q == magnitude(sa),
                n == magnitude(num),
                (num >= 0 && sa <= 0) || (num <= 0 && sa >= 0),
        ;
    }
    assert(0 <= d * depth && 0 <= n * q) by (nonlinear_arith)
        requires
            d > 0,
            depth >= 0,
            n >= 0,
            q >= 0,
    ;
    assert(t == d * depth + n * q);
    assert(d * t - depth * (d * d + n * n) == n * e) by (nonlinear_arith)
        requires
            t == d * depth + n * q,
            e == d * q - m,
            m == depth * n,
    ;
    assert(-(n * d) <= n * e <= n * d) by (nonlinear_arith)
        requires
            -d < e < d,
            n >= 0,
    ;
}

/// The corrected distance of the `k`-th point of a trace.
pub open spec fn corrected_distance(
    vertical: bool,
    px: int,
    py: int,
    angle: int,
    player_angle: int,
    k: int,
) -> int {
    fisheye_corrected(
        player_angle,
        angle,
        raw_distance(
            px,
            py,
            trace_point(vertical, px, py, angle, k).0,
            trace_point(vertical, px, py, angle, k).1,
            angle,
        ),
    )
}

/// A wall that the player faces squarely is at the distance of its depth
/// for every ray: whatever the angle of the ray, the corrected distance of
/// a point on a grid line of the wall is how far the line lies ahead of the
/// player, up to three parts in two million of it and three units of
/// rounding. So all rays that meet one flat wall report one distance, and a
/// step back from the wall adds the length of the step to each of them.
pub proof fn lemma_flat_wall_distance(
    vertical: bool,
    px: int,
    py: int,
    angle: int,
    player_angle: int,
    k: int,
)
    requires
        !trace_degenerate(vertical, angle),
        0 <= k,
        faces_squarely(vertical, player_angle, angle),
    ensures
        ({
            let corrected = corrected_distance(vertical, px, py, angle, player_angle, k);
            let depth = trace_depth(vertical, px, py, angle, k);
            -(3 * depth + 6 * UNIT) <= 2 * UNIT * (corrected - depth) <= 3 * depth + 2 * UNIT
        }),
{
    lemma_sin_sign(angle);
    lemma_cos_sign(angle);
    lemma_cos_one(angle);
    let s = sin_fixed(angle);
    let c = cos_fixed(angle);
    let num = if vertical {
        s
    } else {
        c
    };
    let den = if vertical {
        c
    } else {
        s
    };
    let d = magnitude(den);
    let n = magnitude(num);
    // The cosine that corrects the ray is the size of the divisor.
    let facing = normalized(player_angle);
    lemma_sin_periodic(player_angle - angle, facing - angle);
    lemma_sin_symmetries(angle);
    lemma_sin_symmetries(-angle);
    lemma_sin_periodic(360 - angle, -angle);
    assert(cos_fixed(player_angle - angle) == d);
    // The travel to the point.
    let forward = trace_forward(vertical, angle);
    let origin = if vertical {
        px
    } else {
        py
    };
    let a = origin - line_at(origin, forward, k);
    let depth = magnitude(a);
    let point = trace_point(vertical, px, py, angle, k);
    let along = c * (point.0 - px) - s * (point.1 - py);
    if vertical {
        assert(along == -travel(a, s, c)) by (nonlinear_arith)
            requires
                along == c * (point.0 - px) - s * (point.1 - py),
                point.0 - px == -a,
                point.1 - py == scaled(a, s, c),
                travel(a, s, c) == c * a + s * scaled(a, s, c),
        ;
    } else {
        assert(along == travel(a, c, s)) by (nonlinear_arith)
            requires
                along == c * (point.0 - px) - s * (point.1 - py),
                point.1 - py == -a,
                point.0 - px == scaled(a, c, s),
                travel(a, c, s) == s * a + c * scaled(a, c, s),
        ;
    }
    lemma_trace_distance_grows(vertical, px, py, angle, 0, k);
    lemma_travel_size(a, num, den);
    let t = magnitude(travel(a, num, den));
    lemma_floor_div_bounds(along, UNIT as int);
    assert(along >= 0);
    assert(along == t);
    let raw = raw_distance(px, py, point.0, point.1, angle);
    let corrected = fisheye_corrected(player_angle, angle, raw);
    let rd = raw * d;
    let td = d * t;
    lemma_floor_div_bounds(rd, UNIT as int);
    assert(UNIT * rd <= td && td - UNIT * d < UNIT * rd) by (nonlinear_arith)
        requires
            rd == raw * d,
            td == d * t,
            UNIT * raw <= t < UNIT * raw + UNIT,
            d > 0,
    ;
    // The direction has length one, nearly.
    lemma_direction_is_unit(angle);
    let w = d * d + n * n;
    assert(w == deltas(angle).0 * deltas(angle).0 + deltas(angle).1 * deltas(angle).1)
        by (nonlinear_arith)
        requires
            w == d * d + n * n,
            (d == c || d == -c) && (n == s || n == -s) || (d == s || d == -s) && (n == c || n
                == -c),
            deltas(angle).0 == c,
            deltas(angle).1 == -s,
    ;
    let dw = depth * w;
    assert(depth * (UNIT * UNIT - 1_500_000) <= dw <= depth * (UNIT * UNIT + 1_500_000))
        by (nonlinear_arith)
        requires
            dw == depth * w,
            depth >= 0,
            UNIT * UNIT - 1_500_000 <= w <= UNIT * UNIT + 1_500_000,
    ;
    lemma_mul_bound(n, d, UNIT as int, UNIT as int);
    assert(UNIT * UNIT == 1_000_000_000_000);
}

/// Two rays that meet walls which their players face squarely differ in
/// their corrected distances as the walls differ in depth, up to three
/// parts in two million of the depths and four units of rounding. For two
/// rays of one player on one wall the depths are the same, and so are the
/// distances. For one ray before and after a step back from the wall the
/// depths differ by the step, and so do the distances.
pub proof fn lemma_flat_wall_recedes(
    vertical: bool,
    player_angle: int,
    near_x: int,
    near_y: int,
    near_angle: int,
    near_k: int,
    far_x: int,
    far_y: int,
    far_angle: int,
    far_k: int,
)
    requires
        !trace_degenerate(vertical, near_angle),
        !trace_degenerate(vertical, far_angle),
        0 <= near_k,
        0 <= far_k,
        faces_squarely(vertical, player_angle, near_angle),
        faces_squarely(vertical, player_angle, far_angle),
    ensures
        ({
            let near = corrected_distance(
                vertical,
                near_x,
                near_y,
                near_angle,
                player_angle,
                near_k,
            );
            let far = corrected_distance(vertical, far_x, far_y, far_angle, player_angle, far_k);
            let near_depth = trace_depth(vertical, near_x, near_y, near_angle, near_k);
            let far_depth = trace_depth(vertical, far_x, far_y, far_angle, far_k);
            -(3 * (near_depth + far_depth) + 8 * UNIT) <= 2 * UNIT * ((far - near) - (far_depth
                - near_depth)) <= 3 * (near_depth + far_depth) + 8 * UNIT
        }),
{
    lemma_flat_wall_distance(vertical, near_x, near_y, near_angle, player_angle, near_k);
    lemma_flat_wall_distance(vertical, far_x, far_y, far_angle, player_angle, far_k);
}

/// The ray at `index` of the fan reports on `level` the `j`-th point of
/// one of its traces: the first point of that trace in a wall, with the
/// corrected distance of that point.
pub open spec fn reports_point(
    map: GameMap,
    px: int,
    py: int,
    player_angle: int,
    level: int,
    index: int,
    j: int,
) -> bool {
    let ray = cast_ray(map, px, py, player_angle, level, index);
    let angle = ray_angle(player_angle, index);
    let vertical = ray.hit_side is Vertical;
    &&& first_wall_at(map, level, vertical, px, py, angle, 0, j)
    &&& ray.distance == corrected_distance(vertical, px, py, angle, player_angle, j)
    &&& ray.pos_x == trace_point(vertical, px, py, angle, j).0 / (UNIT as int)
    &&& ray.pos_y == trace_point(vertical, px, py, angle, j).1 / (UNIT as int)
}

/// Every hit that a ray of the fan reports is a point of one of its traces:
/// the first one in a wall, on a horizontal grid line for a horizontal hit
/// and on a vertical one for a vertical hit. So what holds of the points of
/// traces holds of what the fan reports.
pub proof fn lemma_hit_is_a_trace_point(
    map: GameMap,
    px: int,
    py: int,
    player_angle: int,
    level: int,
    index: int,
)
    requires
        map.wf(),
        map.in_bounds(px, py),
    ensures
        cast_ray(map, px, py, player_angle, level, index).is_hit() ==> exists|j: int|
            #[trigger] reports_point(map, px, py, player_angle, level, index, j),
{
    let ray = cast_ray(map, px, py, player_angle, level, index);
    let angle = ray_angle(player_angle, index);
    if ray.is_hit() {
        let vertical = ray.hit_side is Vertical;
        lemma_trace_hit_is_sound(map, level, false, px, py, angle);
        lemma_trace_hit_is_sound(map, level, true, px, py, angle);
        lemma_trace_stops_at_first_wall(map, level, vertical, px, py, angle, 0);
        match trace_hit(map, level, vertical, px, py, angle) {
            Some(hit) => {
                lemma_fisheye_in_range(player_angle, angle, hit.distance as int);
                match trace_from(map, level, vertical, px, py, angle, 0) {
                    Some(point) => {
                        let j = choose|j: int|
                            #[trigger] first_wall_at(map, level, vertical, px, py, angle, 0, j)
                                && point == trace_point(vertical, px, py, angle, j);
                        assert(map.in_bounds(point.0, point.1));
                        lemma_trace_distance_grows(vertical, px, py, angle, 0, j);
                        lemma_cos_one(angle);
                        lemma_mul_bound(cos_fixed(angle), point.0 - px, UNIT as int, 2 * MAX_COORD);
                        lemma_mul_bound(sin_fixed(angle), point.1 - py, UNIT as int, 2 * MAX_COORD);
                        assert(hit.distance == raw_distance(px, py, point.0, point.1, angle));
                        assert(reports_point(map, px, py, player_angle, level, index, j));
                    },
                    None => {},
                }
            },
            None => {},
        }
    }
}

} // verus!
