//! One frame of the game: the player moves, the fan is cast, and the view
//! is laid out. Nothing here draws; the result says what is to be drawn.

use vstd::prelude::*;
use crate::bullet::{bullet_rect, bullet_stopped, fire};
use crate::game::{Game, Player};
use crate::movement::{move_player, moved, PressedKeys};
use crate::overlay::{
    draw_2d_world, gun_source, gun_target, minimap_blocks, player_marker, Overlay, ScreenRect,
};
use crate::raycast::{cast_ray, get_rays, RAY_COUNT};
use crate::render::{draw_rays, stacked_strips, Strip};

verus! {

/// What is to be drawn for one frame.
#[derive(Debug, Clone)]
pub struct Frame {
    /// The wall view, in drawing order.
    pub strips: Vec<Strip>,
    /// The minimap and the gun, drawn over the wall view.
    pub overlay: Overlay,
    /// The flight of a new bullet, where the trigger was pulled in this
    /// frame: its pictures are shown one per frame, taken from the end.
    pub bullets: Option<Vec<ScreenRect>>,
}

/// The player at the start of a frame: as the last frame left it, but for
/// the trigger, which is as the input of this frame says.
pub open spec fn with_trigger(player: Player, fired: bool) -> Player {
    Player { fired, ..player }
}

/// Advances the game by one frame. The trigger flag of the player is set
/// from the input, the player moves with the pressed keys, the fan of rays
/// is cast from the new position and kept in the game, and the rays are
/// turned into the strips of the wall view. A bullet flies where the
/// trigger was pulled.
pub fn next_frame(keys: &PressedKeys, fired: bool, game: &mut Game) -> (frame: Frame)
    requires
        old(game).wf(),
    ensures
        final(game).wf(),
        final(game).game_map == old(game).game_map,
        final(game).player == moved(
            with_trigger(old(game).player, fired),
            old(game).game_map,
            *keys,
        ),
        forall|l: int, i: int|
            0 <= l < final(game).game_map.level_count() && 0 <= i < RAY_COUNT
                ==> #[trigger] final(game).rays[l][i] == cast_ray(
                final(game).game_map,
                final(game).player.pos_x as int,
                final(game).player.pos_y as int,
                final(game).player.angle as int,
                l,
                i,
            ),
        frame.strips@ == stacked_strips(
            final(game).game_map,
            final(game).rays@,
            final(game).rays.len() as int,
        ),
        frame.overlay.blocks@ == minimap_blocks(
            final(game).game_map.levels[0]@,
            final(game).game_map.length as int,
        ),
        frame.overlay.player == player_marker(
            final(game).player.pos_x as int,
            final(game).player.pos_y as int,
        ),
        frame.overlay.gun_texture == (if fired {
            1usize
        } else {
            0usize
        }),
        frame.overlay.gun_source == gun_source(),
        frame.overlay.gun_target == gun_target(),
        frame.bullets is Some <==> fired,
        frame.bullets matches Some(bullets) ==> {
            &&& bullet_stopped(final(game).game_map, final(game).player, bullets.len() as int)
            &&& forall|n: int|
                0 <= n < bullets.len() ==> !bullet_stopped(
                    final(game).game_map,
                    final(game).player,
                    n,
                )
            &&& forall|i: int|
                0 <= i < bullets.len() ==> #[trigger] bullets[i] == bullet_rect(
                    bullets.len() - 1 - i,
                )
        },
{
    game.player.fired = fired;
    move_player(keys, game);
    let rays = get_rays(game);
    game.rays = rays;
    let strips = draw_rays(game);
    let overlay = draw_2d_world(game);
    let bullets = if fired {
        Some(fire(game))
    } else {
        None
    };
    Frame { strips, overlay, bullets }
}

} // verus!
