//! Closed maps: where the outer ring of the lowest level is all wall, no ray
//! from inside it gets away.

use vstd::prelude::*;
use crate::fixed::{
    ceil_div, lemma_ceil_div_within, lemma_scaled_between, lemma_scaled_by_signs, magnitude,
};
use crate::map::{GameMap, CELL};
use crate::raycast::{
    cast_ray, line_at, ray_angle, trace_degenerate, trace_forward, trace_from, trace_hit,
    trace_point,
};
use crate::traces::lemma_trace_hit_is_sound;
use crate::trig::{cos_fixed, lemma_cos_sign, lemma_sin_sign, sin_fixed};

verus! {

/// Every tile on the outer ring of the lowest level is a wall.
pub open spec fn enclosed(map: GameMap) -> bool {
    forall|column: int, row: int|
        0 <= column < map.width && 0 <= row < map.length && (column == 0 || column == map.width
            - 1 || row == 0 || row == map.length - 1) ==> #[trigger] map.tile(0, column, row)
            != 0
}

/// Of two rays' worth of room, one suffices: where travelling `u` along one
/// axis carries a ray further than `room_v` along the other, travelling
/// `v <= room_v` along the other axis carries it no further than `u` along
/// the first.
proof fn lemma_cross(u: int, v: int, s: int, c: int, room_u: int, room_v: int)
    requires
        0 <= u <= room_u,
        0 <= v <= room_v,
        s > 0,
        c > 0,
    ensures
        ceil_div(u * s, c) <= room_v || ceil_div(v * c, s) <= room_u,
{
    lemma_ceil_div_within(u * s, c, room_v);
    lemma_ceil_div_within(v * c, s, room_u);
    if !(u * s <= room_v * c) {
        assert(v * c <= room_u * s) by (nonlinear_arith)
            requires
                0 <= u <= room_u,
                0 <= v <= room_v,
                s > 0,
                c > 0,
                u * s > room_v * c,
        ;
    }
}

/// A trace that finds a wall on the map at its `target`-th point, with all
/// points before it on the map, reports a hit.
proof fn lemma_trace_reaches(
    map: GameMap,
    level: int,
    vertical: bool,
    px: int,
    py: int,
    angle: int,
    k: int,
    target: int,
)
    requires
        0 <= k <= target,
        forall|j: int|
            k <= j <= target ==> map.in_bounds(
                (#[trigger] trace_point(vertical, px, py, angle, j)).0,
                trace_point(vertical, px, py, angle, j).1,
            ),
        map.level_at(
            level,
            trace_point(vertical, px, py, angle, target).0,
            trace_point(vertical, px, py, angle, target).1,
        ) != 0,
    ensures
        trace_from(map, level, vertical, px, py, angle, k) is Some,
    decreases target - k,
{
    let point = trace_point(vertical, px, py, angle, k);
    assert(map.in_bounds(point.0, point.1));
    if map.level_at(level, point.0, point.1) == 0 {
        lemma_trace_reaches(map, level, vertical, px, py, angle, k + 1, target);
    }
}

/// The point lies in a tile inside the outer ring of the map.
pub open spec fn inside_ring(map: GameMap, px: int, py: int) -> bool {
    &&& 1 <= px / (CELL as int) <= map.width - 2
    &&& 1 <= py / (CELL as int) <= map.length - 2
}

/// On an enclosed map every point on the map that is not in a wall of the
/// lowest level lies inside the outer ring.
pub proof fn lemma_free_point_is_inside_ring(map: GameMap, px: int, py: int)
    requires
        map.wf(),
        enclosed(map),
        map.in_bounds(px, py),
        map.level_at(0, px, py) == 0,
    ensures
        inside_ring(map, px, py),
{
    let column = px / (CELL as int);
    let row = py / (CELL as int);
    assert(0 <= column < map.width && 0 <= row < map.length);
    assert(map.tile(0, column, row) == 0);
}

/// Index of the point of a trace that lies in the outer ring of the map,
/// for a trace that starts in a tile inside the ring.
pub open spec fn border_index(map: GameMap, vertical: bool, px: int, py: int, angle: int) -> int {
    let tile = if vertical {
        px / (CELL as int)
    } else {
        py / (CELL as int)
    };
    let side = if vertical {
        map.width as int
    } else {
        map.length as int
    };
    if trace_forward(vertical, angle) {
        side - 2 - tile
    } else {
        tile - 1
    }
}

/// A trace whose point in the outer ring is on the map reports a hit.
proof fn lemma_trace_hits_border(map: GameMap, vertical: bool, px: int, py: int, angle: int)
    requires
        map.wf(),
        enclosed(map),
        inside_ring(map, px, py),
        !trace_degenerate(vertical, angle),
        map.in_bounds(
            trace_point(vertical, px, py, angle, border_index(map, vertical, px, py, angle)).0,
            trace_point(vertical, px, py, angle, border_index(map, vertical, px, py, angle)).1,
        ),
    ensures
        trace_hit(map, 0, vertical, px, py, angle) is Some,
{
    lemma_sin_sign(angle);
    lemma_cos_sign(angle);
    let last = border_index(map, vertical, px, py, angle);
    let forward = trace_forward(vertical, angle);
    let s = sin_fixed(angle);
    let c = cos_fixed(angle);
    let origin = if vertical {
        px
    } else {
        py
    };
    let num = if vertical {
        s
    } else {
        c
    };
    let den = if vertical {
        c
    } else {
        s
    };
    let far = origin - line_at(origin, forward, last);
    assert forall|j: int| 0 <= j <= last implies map.in_bounds(
        (#[trigger] trace_point(vertical, px, py, angle, j)).0,
        trace_point(vertical, px, py, angle, j).1,
    ) by {
        let near = origin - line_at(origin, forward, j);
        lemma_scaled_between(near, far, num, den);
    }
    let target = trace_point(vertical, px, py, angle, last);
    assert(map.tile(0, target.0 / (CELL as int), target.1 / (CELL as int)) != 0);
    lemma_trace_reaches(map, 0, vertical, px, py, angle, 0, last);
}

/// From a point inside the ring of an enclosed map, the point in the outer
/// ring of at least one of the two traces of a ray is on the map.
proof fn lemma_border_point_on_map(map: GameMap, px: int, py: int, angle: int)
    requires
        map.wf(),
        enclosed(map),
        inside_ring(map, px, py),
    ensures
        (!trace_degenerate(true, angle) && map.in_bounds(
            trace_point(true, px, py, angle, border_index(map, true, px, py, angle)).0,
            trace_point(true, px, py, angle, border_index(map, true, px, py, angle)).1,
        )) || (!trace_degenerate(false, angle) && map.in_bounds(
            trace_point(false, px, py, angle, border_index(map, false, px, py, angle)).0,
            trace_point(false, px, py, angle, border_index(map, false, px, py, angle)).1,
        )),
{
    lemma_sin_sign(angle);
    lemma_cos_sign(angle);
    let s = sin_fixed(angle);
    let c = cos_fixed(angle);
    let x_border = line_at(px, trace_forward(true, angle), border_index(map, true, px, py, angle));
    let y_border = line_at(
        py,
        trace_forward(false, angle),
        border_index(map, false, px, py, angle),
    );
    // How far each trace travels to the ring, and how much room there is
    // on the map in the direction of travel.
    let u = magnitude(px - x_border);
    let v = magnitude(py - y_border);
    let room_u = if c > 0 {
        map.world_width() - 1 - px
    } else {
        px
    };
    let room_v = if s < 0 {
        map.world_length() - 1 - py
    } else {
        py
    };
    if c == 0 {
        lemma_scaled_by_signs(py - y_border, c, s);
        assert(magnitude(py - y_border) * magnitude(c) == 0) by (nonlinear_arith)
            requires
                magnitude(c) == 0,
        ;
        lemma_ceil_div_within(0, magnitude(s), 0);
    } else if s == 0 {
        lemma_scaled_by_signs(px - x_border, s, c);
        assert(magnitude(px - x_border) * magnitude(s) == 0) by (nonlinear_arith)
            requires
                magnitude(s) == 0,
        ;
        lemma_ceil_div_within(0, magnitude(c), 0);
    } else {
        lemma_scaled_by_signs(px - x_border, s, c);
        lemma_scaled_by_signs(py - y_border, c, s);
        lemma_cross(u, v, magnitude(s), magnitude(c), room_u, room_v);
        lemma_ceil_div_within(u * magnitude(s), magnitude(c), room_v);
        lemma_ceil_div_within(v * magnitude(c), magnitude(s), room_u);
    }
}

/// On a map whose outer ring is all wall, a ray from a point inside the
/// ring meets a wall of the lowest level on at least one of its two traces,
/// whatever its angle.
pub proof fn lemma_enclosed_trace_hits(map: GameMap, px: int, py: int, angle: int)
    requires
        map.wf(),
        enclosed(map),
        inside_ring(map, px, py),
    ensures
        trace_hit(map, 0, false, px, py, angle) is Some || trace_hit(
            map,
            0,
            true,
            px,
            py,
            angle,
        ) is Some,
{
    lemma_border_point_on_map(map, px, py, angle);
    let vertical_border = trace_point(true, px, py, angle, border_index(map, true, px, py, angle));
    if !trace_degenerate(true, angle) && map.in_bounds(vertical_border.0, vertical_border.1) {
        lemma_trace_hits_border(map, true, px, py, angle);
    } else {
        lemma_trace_hits_border(map, false, px, py, angle);
    }
}

/// On a map whose outer ring is all wall, every ray of the fan of a player
/// who stands inside the ring reports a hit on the lowest level: none is
/// the ray that hit nothing.
pub proof fn lemma_enclosed_ray_hits(
    map: GameMap,
    px: int,
    py: int,
    player_angle: int,
    index: int,
)
    requires
        map.wf(),
        enclosed(map),
        inside_ring(map, px, py),
    ensures
        cast_ray(map, px, py, player_angle, 0, index).is_hit(),
        !(cast_ray(map, px, py, player_angle, 0, index).hit_side is NoHit),
{
    let angle = ray_angle(player_angle, index);
    lemma_enclosed_trace_hits(map, px, py, angle);
    lemma_trace_hit_is_sound(map, 0, false, px, py, angle);
    lemma_trace_hit_is_sound(map, 0, true, px, py, angle);
}

} // verus!
