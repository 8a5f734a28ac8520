//! The flat overlay: the minimap with the player, and the gun.

use vstd::prelude::*;
use crate::fixed::floor_div;
use crate::game::Game;
use crate::map::{level_has_shape, MAX_MAP_SIDE};
use crate::render::WINDOW_WIDTH;

verus! {

/// Side length of the minimap on the screen.
pub const MINIMAP_SIZE: u32 = 128;

/// Left edge of the minimap: it sits in the top right corner of the window.
pub const MINIMAP_OFFSET_X: i32 = 592;

/// Top edge of the minimap.
pub const MINIMAP_OFFSET_Y: i32 = 0;

/// Side length of one tile on the minimap, which is also the number of
/// world units that one minimap pixel stands for.
pub const MINIMAP_BLOCK_SIZE: u32 = 8;

/// Fixed-point units that one minimap pixel stands for.
pub const MINIMAP_SCALE: i64 = 8_000_000;

/// A rectangle on the screen.
#[derive(Debug, Clone, Copy, PartialEq, Eq, Structural)]
pub struct ScreenRect {
    pub x: i32,
    pub y: i32,
    pub width: i32,
    pub height: i32,
}

/// The flat overlay that is drawn over the wall view.
#[derive(Debug, Clone)]
pub struct Overlay {
    /// One square per wall tile of the lowest level, row by row.
    pub blocks: Vec<ScreenRect>,
    /// The marker of the player on the minimap.
    pub player: ScreenRect,
    /// Which gun picture to draw: 0 at rest, 1 while firing.
    pub gun_texture: usize,
    /// The part of the gun picture to draw.
    pub gun_source: ScreenRect,
    /// Where on the screen the gun is drawn.
    pub gun_target: ScreenRect,
}

/// The minimap pixel of a world point.
pub open spec fn minimap_point(pos_x: int, pos_y: int) -> (int, int) {
    (
        MINIMAP_OFFSET_X + pos_x / (MINIMAP_SCALE as int),
        MINIMAP_OFFSET_Y + pos_y / (MINIMAP_SCALE as int),
    )
}

/// The square of the tile at a column and row on the minimap.
pub open spec fn minimap_block(column: int, row: int) -> ScreenRect {
    ScreenRect {
        x: (MINIMAP_OFFSET_X + column * MINIMAP_BLOCK_SIZE) as i32,
        y: (MINIMAP_OFFSET_Y + row * MINIMAP_BLOCK_SIZE) as i32,
        width: MINIMAP_BLOCK_SIZE as i32,
        height: MINIMAP_BLOCK_SIZE as i32,
    }
}

/// The squares of the walls among the first `n` tiles of a row.
pub open spec fn row_blocks(tiles: Seq<u8>, row: int, n: int) -> Seq<ScreenRect>
    decreases n,
{
    if n <= 0 {
        Seq::empty()
    } else if tiles[n - 1] != 0 {
        row_blocks(tiles, row, n - 1).push(minimap_block(n - 1, row))
    } else {
        row_blocks(tiles, row, n - 1)
    }
}

/// The squares of the walls in the first `n` rows of a level.
pub open spec fn minimap_blocks(level: Seq<Vec<u8>>, n: int) -> Seq<ScreenRect>
    decreases n,
{
    if n <= 0 {
        Seq::empty()
    } else {
        minimap_blocks(level, n - 1) + row_blocks(level[n - 1]@, n - 1, level[n - 1].len() as int)
    }
}

/// The marker of a player at the given world point.
pub open spec fn player_marker(pos_x: int, pos_y: int) -> ScreenRect {
    ScreenRect {
        x: (minimap_point(pos_x, pos_y).0 + 2) as i32,
        y: (minimap_point(pos_x, pos_y).1 + 2) as i32,
        width: 4,
        height: 4,
    }
}

/// The whole gun picture.
pub open spec fn gun_source() -> ScreenRect {
    ScreenRect { x: 0, y: 0, width: 128, height: 184 }
}

/// The gun stands at the middle of the bottom edge of the window.
pub open spec fn gun_target() -> ScreenRect {
    ScreenRect { x: (WINDOW_WIDTH / 2 - 64) as i32, y: 328, width: 128, height: 184 }
}

/// Maps a world position to its pixel on the minimap.
pub fn normalize_for_minimap(pos_x: i64, pos_y: i64) -> (r: (i32, i32))
    requires
        i32::MIN <= minimap_point(pos_x as int, pos_y as int).0 <= i32::MAX,
        i32::MIN <= minimap_point(pos_x as int, pos_y as int).1 <= i32::MAX,
    ensures
        r.0 == minimap_point(pos_x as int, pos_y as int).0,
        r.1 == minimap_point(pos_x as int, pos_y as int).1,
{
    (
        (MINIMAP_OFFSET_X as i64 + floor_div(pos_x, MINIMAP_SCALE)) as i32,
        (MINIMAP_OFFSET_Y as i64 + floor_div(pos_y, MINIMAP_SCALE)) as i32,
    )
}

/// Lays out the flat overlay: the walls of the lowest level and the player
/// on the minimap, and the gun.
pub fn draw_2d_world(game: &Game) -> (overlay: Overlay)
    requires
        game.wf(),
    ensures
        overlay.blocks@ == minimap_blocks(
            game.game_map.levels[0]@,
            game.game_map.length as int,
        ),
        overlay.player == player_marker(game.player.pos_x as int, game.player.pos_y as int),
        overlay.gun_texture == (if game.player.fired {
            1usize
        } else {
            0usize
        }),
        overlay.gun_source == gun_source(),
        overlay.gun_target == gun_target(),
{
    let first_level: &Vec<Vec<u8>> = &game.game_map.levels[0];
    assert(level_has_shape(first_level@, game.game_map.width as int, game.game_map.length as int));
    let mut blocks: Vec<ScreenRect> = Vec::new();
    let mut y_position: i32 = 0;
    let mut row_idx: usize = 0;
    while row_idx < first_level.len()
        invariant
            first_level.len() <= MAX_MAP_SIDE,
            level_has_shape(first_level@, game.game_map.width as int, game.game_map.length as int),
            game.game_map.width <= MAX_MAP_SIDE,
            row_idx <= first_level.len(),
            y_position == row_idx * MINIMAP_BLOCK_SIZE,
            blocks@ == minimap_blocks(first_level@, row_idx as int),
        decreases first_level.len() - row_idx,
    {
        let row: &Vec<u8> = &first_level[row_idx];
        let ghost before = blocks@;
        let mut x_position: i32 = 0;
        let mut column: usize = 0;
        while column < row.len()
            invariant
                row.len() <= MAX_MAP_SIDE,
                row_idx < MAX_MAP_SIDE,
                column <= row.len(),
                x_position == column * MINIMAP_BLOCK_SIZE,
                y_position == row_idx * MINIMAP_BLOCK_SIZE,
                blocks@ == before + row_blocks(row@, row_idx as int, column as int),
            decreases row.len() - column,
        {
            if row[column] != 0 {
                blocks.push(
                    ScreenRect {
                        x: MINIMAP_OFFSET_X + x_position,
                        y: MINIMAP_OFFSET_Y + y_position,
                        width: MINIMAP_BLOCK_SIZE as i32,
                        height: MINIMAP_BLOCK_SIZE as i32,
                    },
                );
                assert(blocks@ == before + row_blocks(row@, row_idx as int, column + 1));
            }
            x_position += MINIMAP_BLOCK_SIZE as i32;
            column += 1;
        }
        y_position += MINIMAP_BLOCK_SIZE as i32;
        row_idx += 1;
    }
    let (player_minimap_x, player_minimap_y) = normalize_for_minimap(
        game.player.pos_x,
        game.player.pos_y,
    );
    Overlay {
        blocks,
        player: ScreenRect {
            x: player_minimap_x + 2,
            y: player_minimap_y + 2,
            width: 4,
            height: 4,
        },
        gun_texture: if game.player.fired {
            1
        } else {
            0
        },
        gun_source: ScreenRect { x: 0, y: 0, width: 128, height: 184 },
        gun_target: ScreenRect {
            x: (WINDOW_WIDTH / 2) as i32 - 64,
            y: 328,
            width: 128,
            height: 184,
        },
    }
}

} // verus!
