//! Movement of the player: one step and one turn per tick, and no step into
//! a wall.

use vstd::prelude::*;
use crate::game::{Game, Player};
use crate::map::{out_of_index, GameMap};
use crate::trig::{deltas, get_deltas, lemma_cos_one, normalize_angle, normalized};

verus! {

/// World units that the player advances in one tick.
pub const PLAYER_SPEED: i64 = 4;

/// Degrees that the player turns in one tick.
pub const ROTATION_SPEED: i32 = 3;

/// The movement commands that are held down during one tick.
#[derive(Debug, Clone, Copy, PartialEq, Eq, Structural)]
pub struct PressedKeys {
    pub forward: bool,
    pub backward: bool,
    pub turn_left: bool,
    pub turn_right: bool,
}

/// The point one step from the player along its direction (`sign` 1) or
/// against it (`sign` -1).
pub open spec fn step_target(player: Player, sign: int) -> (int, int) {
    (
        player.pos_x + sign * (player.dir_x * PLAYER_SPEED),
        player.pos_y + sign * (player.dir_y * PLAYER_SPEED),
    )
}

/// The player cannot stand at the point: it is in a wall of the lowest
/// level, or off the map.
pub open spec fn blocked(map: GameMap, x: int, y: int) -> bool {
    !map.in_bounds(x, y) || map.level_at(0, x, y) != 0
}

/// The player after the step of one tick. Forward takes precedence
/// over backward. A step to a blocked point does not happen at all.
pub open spec fn stepped(player: Player, map: GameMap, keys: PressedKeys) -> Player {
    if keys.forward || keys.backward {
        let target = step_target(
            player,
            if keys.forward {
                1
            } else {
                -1
            },
        );
        if blocked(map, target.0, target.1) {
            player
        } else {
            Player { pos_x: target.0 as i64, pos_y: target.1 as i64, ..player }
        }
    } else {
        player
    }
}

/// The player after the turn of one tick. Left takes precedence over
/// right. The direction vector follows the new angle.
pub open spec fn turned(player: Player, keys: PressedKeys) -> Player {
    if keys.turn_left || keys.turn_right {
        let angle = normalized(
            if keys.turn_left {
                player.angle + ROTATION_SPEED
            } else {
                player.angle - ROTATION_SPEED
            },
        );
        Player {
            angle: angle as i32,
            dir_x: deltas(angle).0 as i64,
            dir_y: deltas(angle).1 as i64,
            ..player
        }
    } else {
        player
    }
}

/// The player after one tick: at most one step, then at most one turn.
pub open spec fn moved(player: Player, map: GameMap, keys: PressedKeys) -> Player {
    turned(stepped(player, map, keys), keys)
}

/// Moves the player according to the pressed keys: at most one step,
/// forward or backward, and then at most one turn, left or right. A step
/// into a wall of the lowest level or off the map does not happen: the
/// player stays exactly where it was.
pub fn move_player(keys: &PressedKeys, game: &mut Game)
    requires
        old(game).wf(),
    ensures
        final(game).wf(),
        final(game).player == moved(old(game).player, old(game).game_map, *keys),
        final(game).game_map == old(game).game_map,
        final(game).rays == old(game).rays,
        final(game).player.fired == old(game).player.fired,
        !blocked(
            final(game).game_map,
            final(game).player.pos_x as int,
            final(game).player.pos_y as int,
        ) || (final(game).player.pos_x == old(game).player.pos_x && final(game).player.pos_y
            == old(game).player.pos_y),
        !keys.forward && !keys.backward ==> final(game).player.pos_x == old(game).player.pos_x
            && final(game).player.pos_y == old(game).player.pos_y,
        !keys.turn_left && !keys.turn_right ==> final(game).player.angle == old(
            game,
        ).player.angle,
{
    proof {
        lemma_cos_one(game.player.angle as int);
    }
    if keys.forward || keys.backward {
        let step_x: i64 = game.player.dir_x * PLAYER_SPEED;
        let step_y: i64 = game.player.dir_y * PLAYER_SPEED;
        let target_x: i64;
        let target_y: i64;
        if keys.forward {
            target_x = game.player.pos_x + step_x;
            target_y = game.player.pos_y + step_y;
        } else {
            target_x = game.player.pos_x - step_x;
            target_y = game.player.pos_y - step_y;
        }
        if !out_of_index(&game.game_map, target_x, target_y) && game.game_map.get_level(
            0,
            target_x,
            target_y,
        ) == 0 {
            game.player.pos_x = target_x;
            game.player.pos_y = target_y;
        }
    }
    if keys.turn_left || keys.turn_right {
        let turned: i32 = if keys.turn_left {
            game.player.angle + ROTATION_SPEED
        } else {
            game.player.angle - ROTATION_SPEED
        };
        game.player.angle = normalize_angle(turned);
        let (dir_x, dir_y) = get_deltas(game.player.angle);
        game.player.dir_x = dir_x;
        game.player.dir_y = dir_y;
    }
}

/// A step into a wall or off the map leaves the player where it was: the
/// position after the tick is exactly the position before it.
pub proof fn lemma_blocked_step_keeps_position(player: Player, map: GameMap, keys: PressedKeys)
    requires
        keys.forward || keys.backward,
        ({
            let target = step_target(
                player,
                if keys.forward {
                    1
                } else {
                    -1
                },
            );
            blocked(map, target.0, target.1)
        }),
    ensures
        moved(player, map, keys).pos_x == player.pos_x,
        moved(player, map, keys).pos_y == player.pos_y,
{
}

} // verus!
