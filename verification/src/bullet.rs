//! The flight of a bullet, as a row of pictures that shrink and rise.

use vstd::prelude::*;
use crate::fixed::UNIT;
use crate::game::{Game, Player};
use crate::map::{out_of_index, GameMap, CELL, MAX_MAP_SIDE};
use crate::movement::blocked;
use crate::overlay::ScreenRect;
use crate::trig::{lemma_cos_one, lemma_direction_is_long};

verus! {

/// World units that a bullet flies per step.
pub const BULLET_SPEED: i64 = 1;

/// Where a bullet of the player is after `n` steps of its flight.
pub open spec fn bullet_point(player: Player, n: int) -> (int, int) {
    (
        player.pos_x + n * player.dir_x * BULLET_SPEED,
        player.pos_y + n * player.dir_y * BULLET_SPEED,
    )
}

/// The flight ends at step `n`: the bullet is in a wall of the lowest
/// level or off the map.
pub open spec fn bullet_stopped(map: GameMap, player: Player, n: int) -> bool {
    blocked(map, bullet_point(player, n).0, bullet_point(player, n).1)
}

/// The picture of the bullet at step `n` of its flight: it drifts to the
/// right, rises and shrinks. From step 13 on the sizes are negative.
pub open spec fn bullet_rect(n: int) -> ScreenRect {
    ScreenRect {
        x: (330 + 2 * n) as i32,
        y: (330 - 5 * n) as i32,
        width: (64 - 5 * n) as i32,
        height: (64 - 5 * n) as i32,
    }
}

/// After `n` steps of at least 707106 units each in one direction a
/// bullet that has moved by less than `span` has made few steps.
proof fn lemma_travel_bound(n: int, d: int, span: int)
    by (nonlinear_arith)
    requires
        n >= 0,
        d >= 707106 || d <= -707106,
        -span < n * d < span,
    ensures
        n * 707106 < span,
{
}

/// Lays out the flight of a bullet from the player along its direction
/// until the bullet meets a wall or leaves the map. The pictures come in
/// the order in which they are to be taken from the end of the list: the
/// last one is the first step of the flight.
pub fn fire(game: &Game) -> (bullets: Vec<ScreenRect>)
    requires
        game.wf(),
    ensures
        bullet_stopped(game.game_map, game.player, bullets.len() as int),
        forall|n: int| 0 <= n < bullets.len() ==> !bullet_stopped(game.game_map, game.player, n),
        forall|i: int|
            0 <= i < bullets.len() ==> #[trigger] bullets[i] == bullet_rect(bullets.len() - 1 - i),
{
    let mut flight: Vec<ScreenRect> = Vec::new();
    let mut bullet_x: i64 = game.player.pos_x;
    let mut bullet_y: i64 = game.player.pos_y;
    let mut drawing_x_pos: i32 = 330;
    let mut drawing_y_pos: i32 = 330;
    let mut height: i32 = 64;
    let mut width: i32 = 64;
    let mut steps: i32 = 0;
    proof {
        lemma_cos_one(game.player.angle as int);
        lemma_direction_is_long(game.player.angle as int);
    }
    loop
        invariant
            game.wf(),
            -UNIT <= game.player.dir_x <= UNIT,
            -UNIT <= game.player.dir_y <= UNIT,
            game.player.dir_x >= 707106 || game.player.dir_x <= -707106 || game.player.dir_y
                >= 707106 || game.player.dir_y <= -707106,
            0 <= steps <= 100_000,
            bullet_x == game.player.pos_x + steps * game.player.dir_x,
            bullet_y == game.player.pos_y + steps * game.player.dir_y,
            -CELL <= bullet_x <= (MAX_MAP_SIDE + 1) * CELL,
            -CELL <= bullet_y <= (MAX_MAP_SIDE + 1) * CELL,
            drawing_x_pos == 330 + 2 * steps,
            drawing_y_pos == 330 - 5 * steps,
            width == 64 - 5 * steps,
            height == 64 - 5 * steps,
            flight.len() == steps,
            forall|n: int| 0 <= n < steps ==> !bullet_stopped(game.game_map, game.player, n),
            forall|i: int| 0 <= i < steps ==> #[trigger] flight[i] == bullet_rect(i),
        ensures
            0 <= steps <= 100_000,
            flight.len() == steps,
            bullet_stopped(game.game_map, game.player, steps as int),
            forall|n: int| 0 <= n < steps ==> !bullet_stopped(game.game_map, game.player, n),
            forall|i: int| 0 <= i < steps ==> #[trigger] flight[i] == bullet_rect(i),
        decreases 100_000 - steps,
    {
        assert(bullet_point(game.player, steps as int) == (bullet_x as int, bullet_y as int));
        if out_of_index(&game.game_map, bullet_x, bullet_y) || game.game_map.get_level(
            0,
            bullet_x,
            bullet_y,
        ) != 0 {
            break ;
        }
        proof {
            let span = MAX_MAP_SIDE * CELL;
            if game.player.dir_x >= 707106 || game.player.dir_x <= -707106 {
                lemma_travel_bound(steps as int, game.player.dir_x as int, span);
            } else {
                lemma_travel_bound(steps as int, game.player.dir_y as int, span);
            }
            assert(steps < 90_000);
            assert((steps + 1) * game.player.dir_x == steps * game.player.dir_x
                + game.player.dir_x) by (nonlinear_arith);
            assert((steps + 1) * game.player.dir_y == steps * game.player.dir_y
                + game.player.dir_y) by (nonlinear_arith);
        }
        flight.push(ScreenRect { x: drawing_x_pos, y: drawing_y_pos, width, height });
        drawing_x_pos += 2;
        width -= 5;
        height -= 5;
        drawing_y_pos -= 5;
        bullet_x += game.player.dir_x * BULLET_SPEED;
        bullet_y += game.player.dir_y * BULLET_SPEED;
        steps += 1;
    }
    let mut bullets: Vec<ScreenRect> = Vec::new();
    let ghost total = flight.len() as int;
    let ghost whole = flight@;
    while flight.len() > 0
        invariant
            flight.len() + bullets.len() == total,
            flight@ == whole.subrange(0, flight.len() as int),
            whole.len() == total,
            forall|i: int| 0 <= i < bullets.len() ==> #[trigger] bullets[i] == whole[total - 1 - i],
        decreases flight.len(),
    {
        match flight.pop() {
            Some(position) => {
                bullets.push(position);
            },
            None => {},
        }
    }
    bullets
}

} // verus!
