use ya_raycaster::{move_player, Game, GameMap, Player, PressedKeys, Ray, UNIT};

fn ring_level(side: usize) -> Vec<Vec<u8>> {
    let mut level = vec![vec![0u8; side]; side];
    for i in 0..side {
        level[0][i] = 1;
        level[side - 1][i] = 1;
        level[i][0] = 1;
        level[i][side - 1] = 1;
    }
    level
}

fn arena() -> GameMap {
    GameMap::new(8, 8, vec![ring_level(8)]).unwrap()
}

fn keys(forward: bool, backward: bool, turn_left: bool, turn_right: bool) -> PressedKeys {
    PressedKeys { forward, backward, turn_left, turn_right }
}

fn game_at(x: i64, y: i64, angle: i32) -> Game {
    Game::new(Player::new(x, y, angle), arena()).unwrap()
}

#[test]
fn forward_advances_by_the_speed_along_the_direction() {
    let mut game = game_at(256 * UNIT, 256 * UNIT, 0);
    move_player(&keys(true, false, false, false), &mut game);
    assert_eq!((game.player.pos_x, game.player.pos_y), (260 * UNIT, 256 * UNIT));
    let mut game = game_at(256 * UNIT, 256 * UNIT, 30);
    move_player(&keys(true, false, false, false), &mut game);
    assert_eq!((game.player.pos_x, game.player.pos_y), (259_464_100, 254_000_000));
    assert_eq!(game.player.angle, 30);
}

#[test]
fn backward_retreats_by_the_speed() {
    let mut game = game_at(256 * UNIT, 256 * UNIT, 30);
    move_player(&keys(false, true, false, false), &mut game);
    assert_eq!((game.player.pos_x, game.player.pos_y), (252_535_900, 258_000_000));
}

#[test]
fn forward_takes_precedence_over_backward() {
    let mut game = game_at(256 * UNIT, 256 * UNIT, 90);
    move_player(&keys(true, true, false, false), &mut game);
    assert_eq!((game.player.pos_x, game.player.pos_y), (256 * UNIT, 252 * UNIT));
}

#[test]
fn step_into_a_wall_does_not_move_at_all() {
    // The wall on the right begins at x = 420; the player is less than a step away.
    let mut game = game_at(417 * UNIT, 256 * UNIT, 0);
    let before = game.player;
    move_player(&keys(true, false, false, false), &mut game);
    assert_eq!(game.player, before);
    // Backing into the wall on the left is refused in the same way.
    let mut game = game_at(62 * UNIT, 256 * UNIT, 0);
    let before = game.player;
    move_player(&keys(false, true, false, false), &mut game);
    assert_eq!(game.player, before);
    // One step is exactly four units: from 415.999999 the target is still free.
    let mut game = game_at(416 * UNIT - 1, 256 * UNIT, 0);
    move_player(&keys(true, false, false, false), &mut game);
    assert_eq!(game.player.pos_x, 420 * UNIT - 1);
    let mut game = game_at(416 * UNIT, 256 * UNIT, 0);
    move_player(&keys(true, false, false, false), &mut game);
    assert_eq!(game.player.pos_x, 416 * UNIT);
}

#[test]
fn oblique_step_into_a_wall_keeps_both_coordinates() {
    let mut game = game_at(418 * UNIT, 200 * UNIT, 45);
    let before = game.player;
    move_player(&keys(true, false, false, false), &mut game);
    assert_eq!((game.player.pos_x, game.player.pos_y), (before.pos_x, before.pos_y));
}

#[test]
fn step_off_an_open_map_does_not_move() {
    let map = GameMap::new(2, 2, vec![vec![vec![0u8; 2]; 2]]).unwrap();
    let mut game = Game::new(Player::new(118 * UNIT, 60 * UNIT, 0), map).unwrap();
    move_player(&keys(true, false, false, false), &mut game);
    assert_eq!(game.player.pos_x, 118 * UNIT);
    move_player(&keys(false, true, false, false), &mut game);
    assert_eq!(game.player.pos_x, 114 * UNIT);
}

#[test]
fn turning_changes_angle_and_direction_together() {
    let mut game = game_at(256 * UNIT, 256 * UNIT, 60);
    move_player(&keys(false, false, true, false), &mut game);
    assert_eq!(game.player.angle, 63);
    assert_eq!((game.player.dir_x, game.player.dir_y), (453_990, -891_007));
    move_player(&keys(false, false, false, true), &mut game);
    move_player(&keys(false, false, false, true), &mut game);
    assert_eq!(game.player.angle, 57);
    assert_eq!((game.player.dir_x, game.player.dir_y), (544_639, -838_671));
    assert_eq!((game.player.pos_x, game.player.pos_y), (256 * UNIT, 256 * UNIT));
}

#[test]
fn turning_wraps_around_the_full_turn() {
    let mut game = game_at(256 * UNIT, 256 * UNIT, 358);
    move_player(&keys(false, false, true, false), &mut game);
    assert_eq!(game.player.angle, 1);
    let mut game = game_at(256 * UNIT, 256 * UNIT, 2);
    move_player(&keys(false, false, false, true), &mut game);
    assert_eq!(game.player.angle, 359);
    let mut game = game_at(256 * UNIT, 256 * UNIT, 357);
    move_player(&keys(false, false, true, false), &mut game);
    assert_eq!(game.player.angle, 0);
    assert_eq!((game.player.dir_x, game.player.dir_y), (UNIT, 0));
}

#[test]
fn left_takes_precedence_over_right() {
    let mut game = game_at(256 * UNIT, 256 * UNIT, 60);
    move_player(&keys(false, false, true, true), &mut game);
    assert_eq!(game.player.angle, 63);
}

#[test]
fn step_uses_the_direction_before_the_turn() {
    let mut game = game_at(256 * UNIT, 256 * UNIT, 0);
    move_player(&keys(true, false, true, false), &mut game);
    assert_eq!((game.player.pos_x, game.player.pos_y), (260 * UNIT, 256 * UNIT));
    assert_eq!(game.player.angle, 3);
}

#[test]
fn no_key_changes_nothing() {
    let mut game = game_at(256 * UNIT, 256 * UNIT, 60);
    game.player.fired = true;
    let before = game.clone();
    move_player(&keys(false, false, false, false), &mut game);
    assert_eq!(game.player, before.player);
    assert_eq!(game.rays, before.rays);
    assert_eq!(game.game_map.levels, before.game_map.levels);
}

#[test]
fn new_game_has_a_full_fan_of_no_hit_rays() {
    let map = GameMap::new(8, 8, vec![ring_level(8), ring_level(8), ring_level(8)]).unwrap();
    let game = Game::new(Player::new(300 * UNIT, 300 * UNIT, 60), map).unwrap();
    assert_eq!(game.rays.len(), 3);
    for level in &game.rays {
        assert_eq!(level.len(), 60);
        assert!(level.iter().all(|ray| *ray == Ray::new()));
    }
    assert!(game.is_valid());
}

#[test]
fn game_needs_a_valid_player_on_the_map() {
    assert!(Game::new(Player::new(480 * UNIT, 10, 0), arena()).is_none());
    assert!(Game::new(Player::new(-1, 10, 0), arena()).is_none());
    assert!(Game::new(Player::new(10, 480 * UNIT, 0), arena()).is_none());
    assert!(Game::new(Player::new(480 * UNIT - 1, 480 * UNIT - 1, 0), arena()).is_some());
    let mut skewed = Player::new(100 * UNIT, 100 * UNIT, 10);
    skewed.dir_x += 1;
    assert!(!skewed.is_valid());
    assert!(Game::new(skewed, arena()).is_none());
    let mut unnormalised = Player::new(100 * UNIT, 100 * UNIT, 10);
    unnormalised.angle = 370;
    assert!(Game::new(unnormalised, arena()).is_none());
    let mut broken = arena();
    broken.length = 9;
    assert!(Game::new(Player::new(100 * UNIT, 100 * UNIT, 10), broken).is_none());
}

#[test]
fn game_with_a_short_fan_is_not_valid() {
    let mut game = game_at(256 * UNIT, 256 * UNIT, 60);
    assert!(game.is_valid());
    game.rays[0].pop();
    assert!(!game.is_valid());
    let mut game = game_at(256 * UNIT, 256 * UNIT, 60);
    game.rays.push(vec![Ray::new(); 60]);
    assert!(!game.is_valid());
}

#[test]
fn new_player_normalises_its_angle() {
    let player = Player::new(5, 6, -90);
    assert_eq!(player.angle, 270);
    assert_eq!((player.dir_x, player.dir_y), (0, UNIT));
    assert_eq!((player.pos_x, player.pos_y), (5, 6));
    assert!(!player.fired);
    assert!(player.is_valid());
}
