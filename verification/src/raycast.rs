//! The ray caster: for every ray of the player's fan and every level of the
//! map, the nearest wall that the ray meets.

use vstd::prelude::*;
use crate::enclosure::{enclosed, inside_ring, lemma_enclosed_ray_hits};
use crate::fisheye::{fisheye_corrected, fix_fisheye};
use crate::fixed::{floor_div, lemma_mul_bound, scale, scaled, MAX_COORD, MAX_DISTANCE, UNIT};
use crate::game::{rays_have_shape, Game};
use crate::map::{out_of_index, GameMap, CELL};
use crate::render::is_drawn;
use crate::traces::{lemma_cast_ray_is_sound, lemma_trace_is_periodic};
use crate::trig::{
    cos_fixed, cosine, lemma_cos_sign, lemma_sin_sign, normalize_angle, normalized, sin_fixed,
    sine,
};

verus! {

/// Number of rays of a fan. The rays are one degree apart, so this is also
/// the field of view in degrees. It is even: half of the rays lie on each
/// side of the facing angle.
pub const RAY_COUNT: usize = 60;

/// How far behind a grid line a ray that travels up or left is sampled, so
/// that the sample falls into the tile beyond the line.
pub const EPSILON: i64 = 1000;

/// Distance recorded in a ray that hit nothing.
pub const NO_HIT_DISTANCE: i64 = -1_000_000;

/// Which family of grid lines stopped a ray.
#[derive(Debug, Clone, Copy, PartialEq, Eq, Structural)]
pub enum HitSide {
    /// A line of constant y: the ray entered the tile from above or below.
    Horizontal,
    /// A line of constant x: the ray entered the tile from the left or right.
    Vertical,
    /// The ray left the map without meeting a wall.
    NoHit,
}

/// What one ray saw on one level.
#[derive(Debug, Clone, Copy, PartialEq, Eq, Structural)]
pub struct Ray {
    /// Distance to the wall along the facing axis, in fixed-point units.
    pub distance: i64,
    pub hit_side: HitSide,
    /// World coordinates of the hit in whole units, or -1.
    pub pos_x: i32,
    pub pos_y: i32,
}

/// Where one trace met a wall.
#[derive(Debug, Clone, Copy, PartialEq, Eq, Structural)]
pub struct TraceHit {
    /// Distance from the player along the ray, in fixed-point units.
    pub distance: i64,
    /// World coordinates of the hit in whole units.
    pub x: i32,
    pub y: i32,
}

/// The ray that hit nothing.
pub open spec fn no_hit_ray() -> Ray {
    Ray { distance: NO_HIT_DISTANCE, hit_side: HitSide::NoHit, pos_x: -1i32, pos_y: -1i32 }
}

impl Ray {
    /// A ray that hit nothing.
    pub fn new() -> (r: Ray)
        ensures
            r == no_hit_ray(),
    {
        Ray { distance: NO_HIT_DISTANCE, hit_side: HitSide::NoHit, pos_x: -1, pos_y: -1 }
    }

    /// The ray records a hit.
    pub open spec fn is_hit(&self) -> bool {
        self.pos_x != -1 && self.pos_y != -1
    }
}

/// Length of the displacement from `(px, py)` to `(x, y)` measured along
/// the direction of `angle`; for a point on the ray this is its distance.
pub open spec fn raw_distance(px: int, py: int, x: int, y: int, angle: int) -> int {
    (cos_fixed(angle) * (x - px) - sin_fixed(angle) * (y - py)) / (UNIT as int)
}

/// A trace along horizontal grid lines cannot advance at 0 and 180 degrees,
/// one along vertical grid lines cannot at 90 and 270 degrees.
pub open spec fn trace_degenerate(vertical: bool, angle: int) -> bool {
    if vertical {
        normalized(angle) == 90 || normalized(angle) == 270
    } else {
        normalized(angle) == 0 || normalized(angle) == 180
    }
}

/// Whether the coordinate that a trace steps along grows: y grows for a
/// ray that points down, x grows for a ray that points right.
pub open spec fn trace_forward(vertical: bool, angle: int) -> bool {
    if vertical {
        !(90 < normalized(angle) < 270)
    } else {
        !(0 < normalized(angle) < 180)
    }
}

/// The `k`-th grid line that a ray starting at coordinate `p` crosses.
/// Going forward it is the line itself; going backward it is a point just
/// short of the line, which lies in the tile beyond.
pub open spec fn line_at(p: int, forward: bool, k: int) -> int {
    if forward {
        (p / (CELL as int)) * CELL + CELL + k * CELL
    } else {
        (p / (CELL as int)) * CELL - EPSILON - k * CELL
    }
}

/// The point where the ray from `(px, py)` at `angle` crosses the `k`-th
/// grid line of a trace: the line fixes one coordinate, and the other
/// follows from the slope of the ray, rounded down to a fixed-point unit.
pub open spec fn trace_point(vertical: bool, px: int, py: int, angle: int, k: int) -> (int, int) {
    let s = sin_fixed(angle);
    let c = cos_fixed(angle);
    if vertical {
        let x = line_at(px, trace_forward(vertical, angle), k);
        (x, py + scaled(px - x, s, c))
    } else {
        let y = line_at(py, trace_forward(vertical, angle), k);
        (px + scaled(py - y, c, s), y)
    }
}

/// An upper bound of the number of grid lines that a trace can still cross
/// on the map from its `k`-th one, in fixed-point units of travel.
pub open spec fn trace_budget(
    map: GameMap,
    vertical: bool,
    px: int,
    py: int,
    angle: int,
    k: int,
) -> nat {
    let forward = trace_forward(vertical, angle);
    let line = line_at(
        if vertical {
            px
        } else {
            py
        },
        forward,
        k,
    );
    let limit = if vertical {
        map.world_width()
    } else {
        map.world_length()
    };
    let left = if forward {
        limit - line
    } else {
        line + CELL
    };
    if left > 0 {
        left as nat
    } else {
        0
    }
}

/// The first point from the `k`-th on at which a trace stops on `level`:
/// a point off the map ends it without a hit, a point in a wall is the hit.
pub open spec fn trace_from(
    map: GameMap,
    level: int,
    vertical: bool,
    px: int,
    py: int,
    angle: int,
    k: int,
) -> Option<(int, int)>
    decreases trace_budget(map, vertical, px, py, angle, k),
{
    let point = trace_point(vertical, px, py, angle, k);
    if !map.in_bounds(point.0, point.1) {
        None
    } else if map.level_at(level, point.0, point.1) != 0 {
        Some(point)
    } else {
        trace_from(map, level, vertical, px, py, angle, k + 1)
    }
}

/// The wall that one trace of a ray meets on `level`, if any, with its
/// distance from the player along the ray.
pub open spec fn trace_hit(
    map: GameMap,
    level: int,
    vertical: bool,
    px: int,
    py: int,
    angle: int,
) -> Option<TraceHit> {
    if trace_degenerate(vertical, angle) {
        None
    } else {
        match trace_from(map, level, vertical, px, py, angle, 0) {
            Some(point) => Some(
                TraceHit {
                    distance: raw_distance(px, py, point.0, point.1, angle) as i64,
                    x: (point.0 / (UNIT as int)) as i32,
                    y: (point.1 / (UNIT as int)) as i32,
                },
            ),
            None => None,
        }
    }
}

/// Returns the distance from the player to a point on the ray of the given
/// angle.
pub fn get_distance(
    player_x: i64,
    player_y: i64,
    current_x: i64,
    current_y: i64,
    ray_angle: i32,
) -> (d: i64)
    requires
        -MAX_COORD <= player_x <= MAX_COORD,
        -MAX_COORD <= player_y <= MAX_COORD,
        -MAX_COORD <= current_x <= MAX_COORD,
        -MAX_COORD <= current_y <= MAX_COORD,
    ensures
        d == raw_distance(
            player_x as int,
            player_y as int,
            current_x as int,
            current_y as int,
            ray_angle as int,
        ),
        -MAX_DISTANCE <= d <= MAX_DISTANCE,
{
    let c: i64 = cosine(ray_angle);
    let s: i64 = sine(ray_angle);
    let dx: i64 = current_x - player_x;
    let dy: i64 = current_y - player_y;
    proof {
        lemma_mul_bound(c as int, dx as int, UNIT as int, 2 * MAX_COORD);
        lemma_mul_bound(s as int, dy as int, UNIT as int, 2 * MAX_COORD);
    }
    let along: i64 = c * dx - s * dy;
    floor_div(along, UNIT)
}

/// Follows one trace of a ray on one level until it leaves the map or
/// meets a wall.
fn trace_level(
    game_map: &GameMap,
    level: usize,
    player_x: i64,
    player_y: i64,
    ray_angle: i32,
    vertical: bool,
) -> (hit: Option<TraceHit>)
    requires
        game_map.wf(),
        level < game_map.level_count(),
        game_map.in_bounds(player_x as int, player_y as int),
        0 <= ray_angle < 360,
    ensures
        hit == trace_hit(
            *game_map,
            level as int,
            vertical,
            player_x as int,
            player_y as int,
            ray_angle as int,
        ),
        hit matches Some(h) ==> -MAX_DISTANCE <= h.distance <= MAX_DISTANCE,
{
    let forward: bool = if vertical {
        !(90 < ray_angle && ray_angle < 270)
    } else {
        !(0 < ray_angle && ray_angle < 180)
    };
    if vertical {
        if ray_angle == 90 || ray_angle == 270 {
            return None;
        }
    } else {
        if ray_angle == 0 || ray_angle == 180 {
            return None;
        }
    }
    let s: i64 = sine(ray_angle);
    let c: i64 = cosine(ray_angle);
    proof {
        lemma_sin_sign(ray_angle as int);
        lemma_cos_sign(ray_angle as int);
    }
    let start: i64 = if vertical {
        player_x
    } else {
        player_y
    };
    let mut line: i64 = if forward {
        (start / CELL) * CELL + CELL
    } else {
        (start / CELL) * CELL - EPSILON
    };
    let ghost px = player_x as int;
    let ghost py = player_y as int;
    let ghost angle = ray_angle as int;
    let ghost mut k: int = 0;
    loop
        invariant
            game_map.wf(),
            level < game_map.level_count(),
            game_map.in_bounds(px, py),
            px == player_x,
            py == player_y,
            angle == ray_angle,
            0 <= ray_angle < 360,
            !trace_degenerate(vertical, angle),
            forward == trace_forward(vertical, angle),
            s == sin_fixed(angle),
            c == cos_fixed(angle),
            -UNIT <= s <= UNIT,
            -UNIT <= c <= UNIT,
            vertical ==> c != 0,
            !vertical ==> s != 0,
            start == if vertical {
                player_x
            } else {
                player_y
            },
            0 <= k,
            line == line_at(start as int, forward, k),
            -CELL - EPSILON <= line <= MAX_COORD - CELL,
            trace_from(*game_map, level as int, vertical, px, py, angle, k) == trace_from(
                *game_map,
                level as int,
                vertical,
                px,
                py,
                angle,
                0,
            ),
        decreases trace_budget(*game_map, vertical, px, py, angle, k),
    {
        let current_x: i64;
        let current_y: i64;
        if vertical {
            current_x = line;
            current_y = player_y + scale(player_x - line, s, c);
        } else {
            current_y = line;
            current_x = player_x + scale(player_y - line, c, s);
        }
        assert((current_x as int, current_y as int) == trace_point(vertical, px, py, angle, k));
        if out_of_index(game_map, current_x, current_y) {
            return None;
        }
        if game_map.get_level(level as i32, current_x, current_y) != 0 {
            let distance: i64 = get_distance(player_x, player_y, current_x, current_y, ray_angle);
            return Some(
                TraceHit {
                    distance,
                    x: (current_x / UNIT) as i32,
                    y: (current_y / UNIT) as i32,
                },
            );
        }
        if forward {
            line = line + CELL;
        } else {
            line = line - CELL;
        }
        proof {
            k = k + 1;
        }
    }
}

/// Follows one trace of a ray, along horizontal or along vertical grid
/// lines, on every level of the map. Entry `l` of the result is the wall
/// that the trace meets on level `l`, or `None` where it leaves the map
/// first or the angle is degenerate for this trace.
pub fn calculate_distances(
    game_map: &GameMap,
    player_x: i64,
    player_y: i64,
    ray_angle: i32,
    vertical: bool,
) -> (hits: Vec<Option<TraceHit>>)
    requires
        game_map.wf(),
        game_map.in_bounds(player_x as int, player_y as int),
    ensures
        hits.len() == game_map.level_count(),
        forall|l: int|
            0 <= l < hits.len() ==> hits[l] == trace_hit(
                *game_map,
                l,
                vertical,
                player_x as int,
                player_y as int,
                ray_angle as int,
            ),
        forall|l: int|
            0 <= l < hits.len() ==> ((#[trigger] hits[l]) matches Some(h) ==> -MAX_DISTANCE
                <= h.distance <= MAX_DISTANCE),
{
    let angle: i32 = normalize_angle(ray_angle);
    let mut hits: Vec<Option<TraceHit>> = Vec::new();
    let mut idx: usize = 0;
    while idx < game_map.levels.len()
        invariant
            game_map.wf(),
            game_map.in_bounds(player_x as int, player_y as int),
            angle == normalized(ray_angle as int),
            idx <= game_map.levels.len(),
            hits.len() == idx,
            forall|l: int|
                0 <= l < idx ==> hits[l] == trace_hit(
                    *game_map,
                    l,
                    vertical,
                    player_x as int,
                    player_y as int,
                    ray_angle as int,
                ),
            forall|l: int|
                0 <= l < idx ==> ((#[trigger] hits[l]) matches Some(h) ==> -MAX_DISTANCE
                    <= h.distance <= MAX_DISTANCE),
        decreases game_map.levels.len() - idx,
    {
        let hit = trace_level(game_map, idx, player_x, player_y, angle, vertical);
        proof {
            lemma_trace_is_periodic(
                *game_map,
                idx as int,
                vertical,
                player_x as int,
                player_y as int,
                ray_angle as int,
                angle as int,
            );
        }
        hits.push(hit);
        idx += 1;
    }
    hits
}

/// Angle of the ray at `index` of the fan of a player facing
/// `player_angle`: the fan is centred on the facing angle and its rays are
/// one degree apart.
pub open spec fn ray_angle(player_angle: int, index: int) -> int {
    normalized(player_angle - (RAY_COUNT as int) / 2 + index)
}

/// The fan is regular: its middle ray points along the facing angle, and
/// each ray points one degree further to the left than the one before it.
pub proof fn lemma_fan_is_regular(player_angle: int, index: int)
    ensures
        ray_angle(player_angle, (RAY_COUNT as int) / 2) == normalized(player_angle),
        ray_angle(player_angle, index + 1) == normalized(ray_angle(player_angle, index) + 1),
        (RAY_COUNT as int) % 2 == 0,
{
}

/// The ray recorded for one angle on one level from the results of its
/// two traces: the nearer hit wins, the vertical one on a tie; its distance
/// is corrected for the fisheye effect. Without any hit it is the ray that
/// hit nothing.
pub open spec fn nearer_hit(
    player_angle: int,
    angle: int,
    horizontal: Option<TraceHit>,
    vertical: Option<TraceHit>,
) -> Ray {
    match (horizontal, vertical) {
        (Some(h), Some(v)) => if h.distance < v.distance {
            hit_ray(player_angle, angle, h, HitSide::Horizontal)
        } else {
            hit_ray(player_angle, angle, v, HitSide::Vertical)
        },
        (Some(h), None) => hit_ray(player_angle, angle, h, HitSide::Horizontal),
        (None, Some(v)) => hit_ray(player_angle, angle, v, HitSide::Vertical),
        (None, None) => no_hit_ray(),
    }
}

/// The ray that records the hit of one trace.
pub open spec fn hit_ray(player_angle: int, angle: int, hit: TraceHit, side: HitSide) -> Ray {
    Ray {
        distance: fisheye_corrected(player_angle, angle, hit.distance as int) as i64,
        hit_side: side,
        pos_x: hit.x,
        pos_y: hit.y,
    }
}

/// What the ray at `index` of the player's fan sees on `level`.
pub open spec fn cast_ray(
    map: GameMap,
    px: int,
    py: int,
    player_angle: int,
    level: int,
    index: int,
) -> Ray {
    let angle = ray_angle(player_angle, index);
    nearer_hit(
        player_angle,
        angle,
        trace_hit(map, level, false, px, py, angle),
        trace_hit(map, level, true, px, py, angle),
    )
}

/// Casts the fan of rays of the player and returns, for every level of the
/// map and every ray of the fan, the distance to the wall that the ray
/// meets, the side on which it meets it, and where.
///
/// Every hit is at a distance that is not negative and in a wall of its
/// level. Where the outer ring of the lowest level is all wall and the
/// player stands inside it, every ray of the lowest level is a hit.
pub fn get_rays(game: &Game) -> (rays: Vec<Vec<Ray>>)
    requires
        game.wf(),
    ensures
        rays_have_shape(rays@, game.game_map.level_count()),
        forall|l: int, i: int|
            0 <= l < game.game_map.level_count() && 0 <= i < RAY_COUNT ==> #[trigger] rays[l][i]
                == cast_ray(
                game.game_map,
                game.player.pos_x as int,
                game.player.pos_y as int,
                game.player.angle as int,
                l,
                i,
            ),
        forall|l: int, i: int|
            0 <= l < game.game_map.level_count() && 0 <= i < RAY_COUNT && (
            #[trigger] rays[l][i]).is_hit() ==> 0 <= rays[l][i].distance && is_drawn(
                game.game_map,
                l,
                rays[l][i],
            ),
        enclosed(game.game_map) && inside_ring(
            game.game_map,
            game.player.pos_x as int,
            game.player.pos_y as int,
        ) ==> forall|i: int| 0 <= i < RAY_COUNT ==> (#[trigger] rays[0][i]).is_hit(),
{
    let player_x: i64 = game.player.pos_x;
    let player_y: i64 = game.player.pos_y;
    let player_angle: i32 = game.player.angle;
    let levels: usize = game.game_map.levels.len();
    let half: i32 = (RAY_COUNT / 2) as i32;
    // First the fan ray by ray: `by_ray[i][l]` is what ray `i` sees on level `l`.
    let mut by_ray: Vec<Vec<Ray>> = Vec::new();
    let mut array_idx: usize = 0;
    while array_idx < RAY_COUNT
        invariant
            game.wf(),
            player_x == game.player.pos_x,
            player_y == game.player.pos_y,
            player_angle == game.player.angle,
            levels == game.game_map.level_count(),
            half == RAY_COUNT / 2,
            array_idx <= RAY_COUNT,
            by_ray.len() == array_idx,
            forall|i: int| 0 <= i < array_idx ==> (#[trigger] by_ray[i]).len() == levels,
            forall|i: int, l: int|
                0 <= i < array_idx && 0 <= l < levels ==> #[trigger] by_ray[i][l] == cast_ray(
                    game.game_map,
                    player_x as int,
                    player_y as int,
                    player_angle as int,
                    l,
                    i,
                ),
        decreases RAY_COUNT - array_idx,
    {
        let ray_angle: i32 = normalize_angle(player_angle - half + array_idx as i32);
        let horizontal = calculate_distances(&game.game_map, player_x, player_y, ray_angle, false);
        let vertical = calculate_distances(&game.game_map, player_x, player_y, ray_angle, true);
        let mut seen: Vec<Ray> = Vec::new();
        let mut idx: usize = 0;
        while idx < levels
            invariant
                levels == game.game_map.level_count(),
                horizontal.len() == levels,
                vertical.len() == levels,
                idx <= levels,
                seen.len() == idx,
                forall|l: int|
                    0 <= l < levels ==> ((#[trigger] horizontal[l]) matches Some(h)
                        ==> -MAX_DISTANCE <= h.distance <= MAX_DISTANCE),
                forall|l: int|
                    0 <= l < levels ==> ((#[trigger] vertical[l]) matches Some(h) ==> -MAX_DISTANCE
                        <= h.distance <= MAX_DISTANCE),
                forall|l: int|
                    0 <= l < idx ==> #[trigger] seen[l] == nearer_hit(
                        player_angle as int,
                        ray_angle as int,
                        horizontal[l],
                        vertical[l],
                    ),
            decreases levels - idx,
        {
            let mut current_ray = Ray::new();
            let from_horizontal: Option<TraceHit> = match (horizontal[idx], vertical[idx]) {
                (Some(h), Some(v)) => if h.distance < v.distance {
                    Some(h)
                } else {
                    None
                },
                (Some(h), None) => Some(h),
                _ => None,
            };
            match from_horizontal {
                Some(h) => {
                    current_ray.distance = fix_fisheye(player_angle, ray_angle, h.distance);
                    current_ray.hit_side = HitSide::Horizontal;
                    current_ray.pos_x = h.x;
                    current_ray.pos_y = h.y;
                },
                None => {
                    match vertical[idx] {
                        Some(v) => {
                            current_ray.distance = fix_fisheye(player_angle, ray_angle, v.distance);
                            current_ray.hit_side = HitSide::Vertical;
                            current_ray.pos_x = v.x;
                            current_ray.pos_y = v.y;
                        },
                        None => {},
                    }
                },
            }
            seen.push(current_ray);
            idx += 1;
        }
        by_ray.push(seen);
        array_idx += 1;
    }
    // Then level by level: `rays[l][i]` is what ray `i` sees on level `l`.
    let mut rays: Vec<Vec<Ray>> = Vec::new();
    let mut level: usize = 0;
    while level < levels
        invariant
            levels == game.game_map.level_count(),
            level <= levels,
            by_ray.len() == RAY_COUNT,
            forall|i: int| 0 <= i < RAY_COUNT ==> (#[trigger] by_ray[i]).len() == levels,
            rays.len() == level,
            forall|l: int| 0 <= l < level ==> (#[trigger] rays[l]).len() == RAY_COUNT,
            forall|l: int, i: int|
                0 <= l < level && 0 <= i < RAY_COUNT ==> #[trigger] rays[l][i] == by_ray[i][l],
        decreases levels - level,
    {
        let mut row: Vec<Ray> = Vec::new();
        let mut i: usize = 0;
        while i < RAY_COUNT
            invariant
                level < levels,
                by_ray.len() == RAY_COUNT,
                forall|i: int| 0 <= i < RAY_COUNT ==> (#[trigger] by_ray[i]).len() == levels,
                i <= RAY_COUNT,
                row.len() == i,
                forall|j: int| 0 <= j < i ==> #[trigger] row[j] == by_ray[j][level as int],
            decreases RAY_COUNT - i,
        {
            row.push(by_ray[i][level]);
            i += 1;
        }
        rays.push(row);
        level += 1;
    }
    proof {
        let map = game.game_map;
        assert forall|l: int, i: int|
            0 <= l < map.level_count() && 0 <= i < RAY_COUNT && (
            #[trigger] rays[l][i]).is_hit() implies 0 <= rays[l][i].distance && is_drawn(
            map,
            l,
            rays[l][i],
        ) by {
            lemma_cast_ray_is_sound(
                map,
                player_x as int,
                player_y as int,
                player_angle as int,
                l,
                i,
            );
        }
        if enclosed(map) && inside_ring(map, player_x as int, player_y as int) {
            assert forall|i: int| 0 <= i < RAY_COUNT implies (#[trigger] rays[0][i]).is_hit() by {
                lemma_enclosed_ray_hits(
                    map,
                    player_x as int,
                    player_y as int,
                    player_angle as int,
                    i,
                );
            }
        }
    }
    rays
}

} // verus!
