//! The projector: from what the rays saw to the textured strips of the wall
//! view.

use vstd::prelude::*;
use crate::fixed::{
    floor_div, lemma_floor_div_bounds, lemma_floor_div_reaches, lemma_toward_zero_bounds,
    toward_zero, UNIT,
};
use crate::game::Game;
use crate::map::{GameMap, BLOCKSIZE, MAX_LEVELS};
use crate::raycast::{HitSide, Ray, RAY_COUNT};

verus! {

pub const WINDOW_HEIGHT: u32 = 512;

pub const WINDOW_WIDTH: u32 = 720;

/// Width of the screen strip of one ray: the window width divided by the
/// number of rays.
pub const RAY_DRAWING_WIDTH: u32 = 12;

/// The tile size, 60, times the screen height, 512, in fixed-point units.
pub const STRIP_AREA: i64 = 30_720_000_000;

/// One textured vertical strip of the wall view.
#[derive(Debug, Clone, Copy, PartialEq, Eq, Structural)]
pub struct Strip {
    /// Left edge of the strip on the screen.
    pub column_x: i32,
    /// Top edge of the strip; negative where the strip begins above the screen.
    pub top_y: i64,
    /// Height of the strip in whole pixels.
    pub height: i64,
    /// Which texture to draw.
    pub texture_id: usize,
    /// Left edge of the column of the texture to draw.
    pub texture_column: i32,
}

/// The tile that the last drawn ray hit and the texture column it used.
#[derive(Debug, Clone, Copy, PartialEq, Eq, Structural)]
pub struct TextureColumn {
    pub tile_x: i32,
    pub tile_y: i32,
    pub offset: i32,
}

/// The distance that a wall is drawn at: its corrected distance, but a
/// distance that rounds to nothing counts as the smallest distance there is.
pub open spec fn drawn_distance(distance: int) -> int {
    if distance < 1 {
        1
    } else {
        distance
    }
}

/// The tile size times the screen height, in fixed-point units: the height
/// of a strip is this divided by the distance.
pub open spec fn strip_area() -> int {
    STRIP_AREA as int
}

/// Height on the screen of a wall at the given corrected distance: the
/// tile size times the screen height, divided by the distance, in whole
/// pixels.
pub open spec fn strip_height(distance: int) -> int {
    strip_area() / drawn_distance(distance)
}

/// Top edge of the strip of a wall at the given corrected distance on
/// `level`. The strip of the lowest level is centred on the middle of the
/// screen: its top is half the screen height less half the height of the
/// strip, also where the strip is taller than the screen and so begins above
/// it. Each level above begins one more height of the strip higher. The top
/// is taken from the exact height, before that is cut to whole pixels, and
/// is then cut to a whole pixel itself, towards zero.
pub open spec fn strip_top(distance: int, level: int) -> int {
    toward_zero(
        WINDOW_HEIGHT * drawn_distance(distance) - (2 * level + 1) * strip_area(),
        2 * drawn_distance(distance),
    )
}

/// Left edge on the screen of the strip of the ray at `index`: the fan is
/// drawn from the right edge of the window to the left.
pub open spec fn strip_column(index: int) -> int {
    WINDOW_WIDTH - (index + 1) * RAY_DRAWING_WIDTH
}

/// Which texture a wall shows: each tile id has a pair of textures, the
/// first for faces met along a horizontal grid line, the second, darker
/// one for faces met along a vertical grid line.
pub open spec fn texture_index(tile: u8, side: HitSide) -> int {
    if side is Vertical {
        2 * tile - 1
    } else {
        2 * tile - 2
    }
}

/// The tile that a ray hit, as column and row.
pub open spec fn hit_tile(ray: Ray) -> (int, int) {
    (ray.pos_x as int / BLOCKSIZE as int, ray.pos_y as int / BLOCKSIZE as int)
}

/// How far along the wall face the ray hit the tile, in whole world units.
pub open spec fn wall_offset(ray: Ray) -> int {
    if ray.hit_side is Horizontal {
        ray.pos_x as int % BLOCKSIZE as int
    } else {
        ray.pos_y as int % BLOCKSIZE as int
    }
}

/// The texture column of a drawn ray, given that of the ray drawn before it
/// on the same level. On a new tile the column starts at the place along
/// the wall where the ray hit. On the same tile it moves left by the width
/// of a strip, so that a wide wall face does not show one column over and
/// over; where that would leave the texture on the left, it starts again.
pub open spec fn next_column(previous: Option<TextureColumn>, ray: Ray) -> TextureColumn {
    let tile = hit_tile(ray);
    match previous {
        Some(p) if p.tile_x == tile.0 && p.tile_y == tile.1 && p.offset - RAY_DRAWING_WIDTH
            >= 0 => TextureColumn {
            tile_x: p.tile_x,
            tile_y: p.tile_y,
            offset: (p.offset - RAY_DRAWING_WIDTH) as i32,
        },
        _ => TextureColumn {
            tile_x: tile.0 as i32,
            tile_y: tile.1 as i32,
            offset: wall_offset(ray) as i32,
        },
    }
}

/// Tile id under the hit point of a ray on `level`.
pub open spec fn tile_under(map: GameMap, level: int, ray: Ray) -> u8 {
    map.level_at(level, ray.pos_x * UNIT, ray.pos_y * UNIT)
}

/// A ray is drawn when it recorded a hit and the map has a wall there.
pub open spec fn is_drawn(map: GameMap, level: int, ray: Ray) -> bool {
    ray.is_hit() && tile_under(map, level, ray) != 0
}

/// The strip of a drawn ray at `index` of the fan on `level`.
pub open spec fn strip_of(map: GameMap, level: int, index: int, ray: Ray, column: int) -> Strip {
    Strip {
        column_x: strip_column(index) as i32,
        top_y: strip_top(ray.distance as int, level) as i64,
        height: strip_height(ray.distance as int) as i64,
        texture_id: texture_index(tile_under(map, level, ray), ray.hit_side) as usize,
        texture_column: column as i32,
    }
}

/// The texture column in use after the first `n` rays of a level.
pub open spec fn column_after(map: GameMap, level: int, rays: Seq<Ray>, n: int) -> Option<
    TextureColumn,
>
    decreases n,
{
    if n <= 0 {
        None
    } else if is_drawn(map, level, rays[n - 1]) {
        Some(next_column(column_after(map, level, rays, n - 1), rays[n - 1]))
    } else {
        column_after(map, level, rays, n - 1)
    }
}

/// The strips of the first `n` rays of a level, in the order of the fan.
pub open spec fn level_strips(map: GameMap, level: int, rays: Seq<Ray>, n: int) -> Seq<Strip>
    decreases n,
{
    if n <= 0 {
        Seq::empty()
    } else if is_drawn(map, level, rays[n - 1]) {
        level_strips(map, level, rays, n - 1).push(
            strip_of(
                map,
                level,
                n - 1,
                rays[n - 1],
                next_column(column_after(map, level, rays, n - 1), rays[n - 1]).offset as int,
            ),
        )
    } else {
        level_strips(map, level, rays, n - 1)
    }
}

/// The strips of the topmost `n` levels: the highest level first, so that
/// lower levels are drawn over higher ones.
pub open spec fn stacked_strips(map: GameMap, rays: Seq<Vec<Ray>>, n: int) -> Seq<Strip>
    decreases n,
{
    if n <= 0 {
        Seq::empty()
    } else {
        stacked_strips(map, rays, n - 1) + level_strips(
            map,
            rays.len() - n,
            rays[rays.len() - n]@,
            rays[rays.len() - n].len() as int,
        )
    }
}

/// The strip of the lowest level is centred on the screen, to the pixel
/// that rounding allows. One that is no taller than the screen lies on the
/// screen; a taller one covers the screen from top to bottom.
pub proof fn lemma_strip_is_centred(distance: int)
    ensures
        strip_area() <= WINDOW_HEIGHT * drawn_distance(distance) ==> 0 <= strip_top(distance, 0)
            && strip_top(distance, 0) + strip_height(distance) <= WINDOW_HEIGHT,
        strip_area() > WINDOW_HEIGHT * drawn_distance(distance) ==> strip_top(distance, 0) <= 0
            && strip_top(distance, 0) + strip_height(distance) >= WINDOW_HEIGHT,
        -2 <= 2 * strip_top(distance, 0) + strip_height(distance) - WINDOW_HEIGHT <= 1,
{
    let d = drawn_distance(distance);
    let n = WINDOW_HEIGHT * d - strip_area();
    let t = strip_top(distance, 0);
    let h = strip_height(distance);
    lemma_toward_zero_bounds(n, 2 * d);
    lemma_floor_div_bounds(strip_area(), d);
    let twice = 2 * t + h - WINDOW_HEIGHT;
    assert((2 * d) * twice == 2 * ((2 * d) * t - n) + 2 * (d * h - strip_area()))
        by (nonlinear_arith)
        requires
            twice == 2 * t + h - WINDOW_HEIGHT,
            n == WINDOW_HEIGHT * d - strip_area(),
    ;
    assert(-2 <= twice <= 1) by (nonlinear_arith)
        requires
            d > 0,
            -3 * (2 * d) < (2 * d) * twice < 2 * (2 * d),
    ;
    assert(n >= 0 ==> twice <= 0) by (nonlinear_arith)
        requires
            d > 0,
            n >= 0 ==> (2 * d) * twice <= 0,
    ;
    assert(n < 0 ==> twice >= 0) by (nonlinear_arith)
        requires
            d > 0,
            n < 0 ==> (2 * d) * twice > -(2 * d),
    ;
}

/// Each level is drawn one height of the strip above the level below it,
/// to the pixels that rounding allows.
pub proof fn lemma_levels_are_stacked(distance: int, level: int)
    ensures
        -2 <= strip_top(distance, level + 1) - strip_top(distance, level) + strip_height(distance)
            <= 1,
{
    assert(strip_area() == 30_720_000_000);
    let d = drawn_distance(distance);
    let below = WINDOW_HEIGHT * d - (2 * level + 1) * strip_area();
    let above = WINDOW_HEIGHT * d - (2 * (level + 1) + 1) * strip_area();
    let t0 = strip_top(distance, level);
    let t1 = strip_top(distance, level + 1);
    let h = strip_height(distance);
    lemma_toward_zero_bounds(below, 2 * d);
    lemma_toward_zero_bounds(above, 2 * d);
    lemma_floor_div_bounds(strip_area(), d);
    let gap = t1 - t0 + h;
    assert((2 * d) * gap == ((2 * d) * t1 - above) - ((2 * d) * t0 - below) + 2 * (d * h
        - strip_area())) by (nonlinear_arith)
        requires
            gap == t1 - t0 + h,
            above == below - 2 * strip_area(),
    ;
    assert(-2 <= gap <= 1) by (nonlinear_arith)
        requires
            d > 0,
            -3 * (2 * d) < (2 * d) * gap < 2 * (2 * d),
    ;
}

/// A wall that is further away is drawn no taller, and no wall is drawn
/// with a negative height.
pub proof fn lemma_strip_height_shrinks(near: int, far: int)
    requires
        near <= far,
    ensures
        0 <= strip_height(far) <= strip_height(near),
{
    let n = drawn_distance(near);
    let f = drawn_distance(far);
    let area = strip_area();
    lemma_floor_div_bounds(area, f);
    lemma_floor_div_bounds(area, n);
    assert(n * (area / f) <= area) by (nonlinear_arith)
        requires
            0 < n <= f,
            f * (area / f) <= area,
            0 <= area / f,
    ;
    lemma_floor_div_reaches(area, n, area / f);
    assert((area / f) * n == n * (area / f)) by (nonlinear_arith);
}

/// The texture column for a drawn ray, given that of the ray drawn before
/// it on the same level. The column starts afresh whenever the tile
/// changes; it moves left only from one ray to the next on the same tile;
/// and it is never negative.
pub fn next_texture_column(previous: Option<TextureColumn>, ray: &Ray) -> (column: TextureColumn)
    ensures
        column == next_column(previous, *ray),
        0 <= column.offset,
        (previous matches Some(p) ==> p.offset < BLOCKSIZE) ==> column.offset < BLOCKSIZE,
        column.tile_x == hit_tile(*ray).0,
        column.tile_y == hit_tile(*ray).1,
        previous is None ==> column.offset == wall_offset(*ray),
        previous matches Some(p) ==> ((p.tile_x != column.tile_x || p.tile_y != column.tile_y)
            ==> column.offset == wall_offset(*ray)),
        previous matches Some(p) ==> (p.tile_x == column.tile_x && p.tile_y == column.tile_y
            ==> column.offset == (if p.offset >= RAY_DRAWING_WIDTH {
            p.offset - RAY_DRAWING_WIDTH
        } else {
            wall_offset(*ray)
        })),
{
    let tile_x: i32 = floor_div(ray.pos_x as i64, BLOCKSIZE) as i32;
    let tile_y: i32 = floor_div(ray.pos_y as i64, BLOCKSIZE) as i32;
    match previous {
        Some(p) if p.tile_x == tile_x && p.tile_y == tile_y && p.offset
            >= RAY_DRAWING_WIDTH as i32 => {
            TextureColumn { tile_x, tile_y, offset: p.offset - RAY_DRAWING_WIDTH as i32 }
        },
        _ => {
            let along: i32 = match ray.hit_side {
                HitSide::Horizontal => (ray.pos_x as i64 - (tile_x as i64) * BLOCKSIZE) as i32,
                _ => (ray.pos_y as i64 - (tile_y as i64) * BLOCKSIZE) as i32,
            };
            TextureColumn { tile_x, tile_y, offset: along }
        },
    }
}

/// Turns the rays of the game into the strips of the wall view, in drawing
/// order: the highest level first, and on each level the fan from the right
/// edge of the window to the left. A ray without a hit, or whose hit point
/// is not in a wall of its level, gives no strip.
pub fn draw_rays(game: &Game) -> (strips: Vec<Strip>)
    requires
        game.wf(),
    ensures
        strips@ == stacked_strips(game.game_map, game.rays@, game.rays.len() as int),
{
    let levels: usize = game.rays.len();
    let mut strips: Vec<Strip> = Vec::new();
    let mut idx: usize = 0;
    while idx < levels
        invariant
            game.wf(),
            levels == game.rays.len(),
            idx <= levels,
            strips@ == stacked_strips(game.game_map, game.rays@, idx as int),
        decreases levels - idx,
    {
        let level_counter: usize = levels - 1 - idx;
        let level: &Vec<Ray> = &game.rays[level_counter];
        let mut x_pos: i32 = WINDOW_WIDTH as i32;
        let mut last: Option<TextureColumn> = None;
        let ghost before = strips@;
        let mut i: usize = 0;
        while i < level.len()
            invariant
                game.wf(),
                levels == game.rays.len(),
                level_counter < levels,
                level == game.rays[level_counter as int],
                level.len() == RAY_COUNT,
                i <= level.len(),
                x_pos == WINDOW_WIDTH - i * RAY_DRAWING_WIDTH,
                last == column_after(game.game_map, level_counter as int, level@, i as int),
                strips@ == before + level_strips(
                    game.game_map,
                    level_counter as int,
                    level@,
                    i as int,
                ),
            decreases level.len() - i,
        {
            let ray: Ray = level[i];
            x_pos -= RAY_DRAWING_WIDTH as i32;
            if ray.pos_x != -1 && ray.pos_y != -1 {
                let texture_no: u8 = game.game_map.get_level(
                    level_counter as i32,
                    ray.pos_x as i64 * UNIT,
                    ray.pos_y as i64 * UNIT,
                );
                if texture_no != 0 {
                    let nearest: i64 = if ray.distance < 1 {
                        1
                    } else {
                        ray.distance
                    };
                    let area: i64 = BLOCKSIZE * (WINDOW_HEIGHT as i64) * UNIT;
                    assert(area == 30_720_000_000 && area == STRIP_AREA);
                    assert(level_counter < MAX_LEVELS);
                    let line_height: i64 = floor_div(area, nearest);
                    // The top comes from the exact height: half the screen less
                    // half the strip, less one strip for every level below. It
                    // is computed as one quotient, so that it is rounded once.
                    let levels_below: i128 = level_counter as i128;
                    let doubled: i128 = (WINDOW_HEIGHT as i128) * (nearest as i128) - (2
                        * levels_below + 1) * (area as i128);
                    let divisor: i128 = 2 * (nearest as i128);
                    proof {
                        lemma_toward_zero_bounds(doubled as int, divisor as int);
                        lemma_floor_div_reaches(doubled as int, divisor as int, 257);
                    }
                    let line_start: i128 = if doubled >= 0 {
                        doubled / divisor
                    } else {
                        -((-doubled) / divisor)
                    };
                    let texture: usize = match ray.hit_side {
                        HitSide::Vertical => (texture_no as usize) * 2 - 1,
                        _ => (texture_no as usize) * 2 - 2,
                    };
                    let column = next_texture_column(last, &ray);
                    let strip = Strip {
                        column_x: x_pos,
                        top_y: line_start as i64,
                        height: line_height,
                        texture_id: texture,
                        texture_column: column.offset,
                    };
                    strips.push(strip);
                    last = Some(column);
                    assert(strip == strip_of(
                        game.game_map,
                        level_counter as int,
                        i as int,
                        ray,
                        column.offset as int,
                    ));
                    assert(strips@ == before + level_strips(
                        game.game_map,
                        level_counter as int,
                        level@,
                        i + 1,
                    ));
                }
            }
            i += 1;
        }
        idx += 1;
    }
    strips
}

} // verus!
