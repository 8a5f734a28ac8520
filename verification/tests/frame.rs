use ya_raycaster::{
    draw_2d_world, draw_rays, fire, get_rays, move_player, next_frame, Game, GameMap, Player,
    PressedKeys, UNIT,
};

fn arena() -> GameMap {
    let mut level = vec![vec![0u8; 8]; 8];
    for i in 0..8 {
        level[0][i] = 1;
        level[7][i] = 1;
        level[i][0] = 1;
        level[i][7] = 1;
    }
    level[2][2] = 2;
    GameMap::new(8, 8, vec![level.clone(), level]).unwrap()
}

fn keys(forward: bool, backward: bool, turn_left: bool, turn_right: bool) -> PressedKeys {
    PressedKeys { forward, backward, turn_left, turn_right }
}

#[test]
fn frame_is_move_then_cast_then_project() {
    let pressed = keys(true, false, false, true);
    let mut game = Game::new(Player::new(256 * UNIT, 256 * UNIT, 60), arena()).unwrap();
    let frame = next_frame(&pressed, false, &mut game);

    let mut by_hand = Game::new(Player::new(256 * UNIT, 256 * UNIT, 60), arena()).unwrap();
    move_player(&pressed, &mut by_hand);
    by_hand.rays = get_rays(&by_hand);
    assert_eq!(game.player, by_hand.player);
    assert_eq!(game.rays, by_hand.rays);
    assert_eq!(frame.strips, draw_rays(&by_hand));
    let overlay = draw_2d_world(&by_hand);
    assert_eq!(frame.overlay.blocks, overlay.blocks);
    assert_eq!(frame.overlay.player, overlay.player);
    assert_eq!(frame.overlay.gun_texture, 0);
    assert!(frame.bullets.is_none());
    assert_eq!((game.player.pos_x, game.player.pos_y), (258_000_000, 252_535_900));
    assert_eq!(game.player.angle, 57);
    assert_eq!(frame.strips.len(), 120);
    assert!(game.is_valid());
}

#[test]
fn trigger_lasts_one_frame() {
    let still = keys(false, false, false, false);
    let mut game = Game::new(Player::new(256 * UNIT, 256 * UNIT, 0), arena()).unwrap();
    let shot = next_frame(&still, true, &mut game);
    assert!(game.player.fired);
    assert_eq!(shot.overlay.gun_texture, 1);
    assert_eq!(shot.bullets, Some(fire(&game)));
    assert_eq!(shot.bullets.unwrap().len(), 164);
    let after = next_frame(&still, false, &mut game);
    assert!(!game.player.fired);
    assert_eq!(after.overlay.gun_texture, 0);
    assert!(after.bullets.is_none());
    assert_eq!(after.strips, shot.strips);
}

#[test]
fn frames_keep_the_player_out_of_the_walls() {
    let mut game = Game::new(Player::new(256 * UNIT, 256 * UNIT, 33), arena()).unwrap();
    for tick in 0..400 {
        let pressed = keys(tick % 7 != 0, false, tick % 5 == 0, tick % 11 == 0);
        let frame = next_frame(&pressed, false, &mut game);
        assert!(game.is_valid());
        assert_eq!(game.game_map.get_level(0, game.player.pos_x, game.player.pos_y), 0);
        assert_eq!(frame.strips.len(), 120);
    }
}
