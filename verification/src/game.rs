//! The player and the state of a game.

use vstd::prelude::*;
use crate::map::{out_of_index, GameMap};
use crate::raycast::{no_hit_ray, Ray, RAY_COUNT};
use crate::trig::{deltas, get_deltas, normalize_angle, normalized};

verus! {

/// The player: a position in fixed-point world coordinates, a facing angle
/// in whole degrees and the unit vector of that angle.
#[derive(Debug, Clone, Copy, PartialEq, Eq, Structural)]
pub struct Player {
    pub pos_x: i64,
    pub pos_y: i64,
    pub angle: i32,
    pub dir_x: i64,
    pub dir_y: i64,
    /// Set for the one frame in which the trigger was pulled.
    pub fired: bool,
}

impl Player {
    /// The angle is normalised and the direction is the one of the angle.
    pub open spec fn wf(&self) -> bool {
        &&& 0 <= self.angle < 360
        &&& self.dir_x == deltas(self.angle as int).0
        &&& self.dir_y == deltas(self.angle as int).1
    }

    /// A player at the given point, facing `angle` degrees, who has not
    /// fired.
    pub fn new(pos_x: i64, pos_y: i64, angle: i32) -> (player: Player)
        ensures
            player.wf(),
            player.pos_x == pos_x,
            player.pos_y == pos_y,
            player.angle == normalized(angle as int),
            !player.fired,
    {
        let facing: i32 = normalize_angle(angle);
        let (dir_x, dir_y) = get_deltas(facing);
        Player { pos_x, pos_y, angle: facing, dir_x, dir_y, fired: false }
    }

    /// Whether the player is well formed.
    pub fn is_valid(&self) -> (valid: bool)
        ensures
            valid == self.wf(),
    {
        if self.angle < 0 || self.angle >= 360 {
            return false;
        }
        let (dir_x, dir_y) = get_deltas(self.angle);
        self.dir_x == dir_x && self.dir_y == dir_y
    }
}

/// The state of a game: the player, what the rays of the last cast saw on
/// each level, and the map.
#[derive(Debug, Clone)]
pub struct Game {
    pub player: Player,
    /// `rays[level][index]`, with `RAY_COUNT` rays on every level of the map.
    pub rays: Vec<Vec<Ray>>,
    pub game_map: GameMap,
}

/// There is one row of `RAY_COUNT` rays for each of `levels` levels.
pub open spec fn rays_have_shape(rays: Seq<Vec<Ray>>, levels: int) -> bool {
    &&& rays.len() == levels
    &&& forall|l: int| 0 <= l < rays.len() ==> (#[trigger] rays[l]).len() == RAY_COUNT
}

impl Game {
    /// The map and the player are well formed, the player stands on the
    /// map, and there is a full fan of rays for every level.
    pub open spec fn wf(&self) -> bool {
        &&& self.game_map.wf()
        &&& self.player.wf()
        &&& self.game_map.in_bounds(self.player.pos_x as int, self.player.pos_y as int)
        &&& rays_have_shape(self.rays@, self.game_map.level_count())
    }

    /// A game of the player on the map, before any ray was cast: every ray
    /// is the one that hit nothing. There is no game where the map or the
    /// player is not well formed or the player does not stand on the map.
    pub fn new(player: Player, game_map: GameMap) -> (r: Option<Game>)
        ensures
            r is Some <==> game_map.wf() && player.wf() && game_map.in_bounds(
                player.pos_x as int,
                player.pos_y as int,
            ),
            r matches Some(game) ==> {
                &&& game.wf()
                &&& game.player == player
                &&& game.game_map == game_map
                &&& forall|l: int, i: int|
                    0 <= l < game.rays.len() && 0 <= i < RAY_COUNT ==> #[trigger] game.rays[l][i]
                        == no_hit_ray()
            },
    {
        if !game_map.is_valid() || !player.is_valid() {
            return None;
        }
        if out_of_index(&game_map, player.pos_x, player.pos_y) {
            return None;
        }
        let mut rays: Vec<Vec<Ray>> = Vec::new();
        let mut level: usize = 0;
        while level < game_map.levels.len()
            invariant
                level <= game_map.levels.len(),
                rays.len() == level,
                forall|l: int| 0 <= l < level ==> (#[trigger] rays[l]).len() == RAY_COUNT,
                forall|l: int, i: int|
                    0 <= l < level && 0 <= i < RAY_COUNT ==> #[trigger] rays[l][i] == no_hit_ray(),
            decreases game_map.levels.len() - level,
        {
            let mut row: Vec<Ray> = Vec::new();
            let mut i: usize = 0;
            while i < RAY_COUNT
                invariant
                    i <= RAY_COUNT,
                    row.len() == i,
                    forall|j: int| 0 <= j < i ==> #[trigger] row[j] == no_hit_ray(),
                decreases RAY_COUNT - i,
            {
                row.push(Ray::new());
                i += 1;
            }
            rays.push(row);
            level += 1;
        }
        Some(Game { player, rays, game_map })
    }

    /// Whether the game is well formed.
    pub fn is_valid(&self) -> (valid: bool)
        ensures
            valid == self.wf(),
    {
        if !self.game_map.is_valid() || !self.player.is_valid() {
            return false;
        }
        if out_of_index(&self.game_map, self.player.pos_x, self.player.pos_y) {
            return false;
        }
        if self.rays.len() != self.game_map.levels.len() {
            return false;
        }
        let mut level: usize = 0;
        while level < self.rays.len()
            invariant
                level <= self.rays.len(),
                forall|l: int| 0 <= l < level ==> (#[trigger] self.rays[l]).len() == RAY_COUNT,
            decreases self.rays.len() - level,
        {
            if self.rays[level].len() != RAY_COUNT {
                return false;
            }
            level += 1;
        }
        true
    }
}

} // verus!
