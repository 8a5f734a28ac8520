use ya_raycaster::{
    draw_rays, get_rays, next_texture_column, Game, GameMap, HitSide, Player, Ray, Strip,
    TextureColumn, RAY_DRAWING_WIDTH, UNIT, WINDOW_HEIGHT, WINDOW_WIDTH,
};

fn ring_level(side: usize) -> Vec<Vec<u8>> {
    let mut level = vec![vec![0u8; side]; side];
    for i in 0..side {
        level[0][i] = 1;
        level[side - 1][i] = 1;
        level[i][0] = 1;
        level[i][side - 1] = 1;
    }
    level
}

fn arena() -> GameMap {
    let mut level = ring_level(8);
    level[2][2] = 2;
    GameMap::new(8, 8, vec![level]).unwrap()
}

fn game_at(map: GameMap, x: i64, y: i64, angle: i32) -> Game {
    Game::new(Player::new(x * UNIT, y * UNIT, angle), map).unwrap()
}

fn strip(column_x: i32, top_y: i64, height: i64, texture_id: usize, texture_column: i32) -> Strip {
    Strip { column_x, top_y, height, texture_id, texture_column }
}

fn vertical_hit(distance: i64, pos_x: i32, pos_y: i32) -> Ray {
    Ray { distance, hit_side: HitSide::Vertical, pos_x, pos_y }
}

/// The strips of a game whose first rays on the lowest level are the given ones.
fn strips_of(rays: &[Ray]) -> Vec<Strip> {
    let mut game = game_at(arena(), 256, 256, 0);
    for (index, ray) in rays.iter().enumerate() {
        game.rays[0][index] = *ray;
    }
    draw_rays(&game)
}

#[test]
fn screen_constants() {
    assert_eq!(WINDOW_WIDTH, 720);
    assert_eq!(WINDOW_HEIGHT, 512);
    assert_eq!(RAY_DRAWING_WIDTH * 60, WINDOW_WIDTH);
}

#[test]
fn texture_column_resets_on_a_new_tile_and_steps_on_the_same() {
    // Three rays in a row hit tiles A, A and B of the wall on the right.
    let first = vertical_hit(100 * UNIT, 420, 170);
    let second = vertical_hit(100 * UNIT, 420, 175);
    let third = vertical_hit(100 * UNIT, 420, 185);
    let a = next_texture_column(None, &first);
    assert_eq!(a, TextureColumn { tile_x: 7, tile_y: 2, offset: 50 });
    let b = next_texture_column(Some(a), &second);
    assert_eq!(b, TextureColumn { tile_x: 7, tile_y: 2, offset: 38 });
    let c = next_texture_column(Some(b), &third);
    assert_eq!(c, TextureColumn { tile_x: 7, tile_y: 3, offset: 5 });
    let strips = strips_of(&[first, second, third]);
    assert_eq!(strips.len(), 3);
    assert_eq!(strips.iter().map(|s| s.texture_column).collect::<Vec<i32>>(), vec![50, 38, 5]);
}

#[test]
fn texture_column_starts_again_when_it_would_leave_the_texture() {
    let rays: Vec<Ray> = (0..7).map(|n| vertical_hit(100 * UNIT, 420, 170 + n)).collect();
    let strips = strips_of(&rays);
    assert_eq!(
        strips.iter().map(|s| s.texture_column).collect::<Vec<i32>>(),
        vec![50, 38, 26, 14, 2, 55, 43]
    );
    let kept = next_texture_column(
        Some(TextureColumn { tile_x: 7, tile_y: 2, offset: 12 }),
        &vertical_hit(UNIT, 420, 121),
    );
    assert_eq!(kept.offset, 0);
    let restarted = next_texture_column(
        Some(TextureColumn { tile_x: 7, tile_y: 2, offset: 11 }),
        &vertical_hit(UNIT, 420, 121),
    );
    assert_eq!(restarted.offset, 1);
}

#[test]
fn texture_column_follows_the_side_of_the_hit() {
    let horizontal = Ray { distance: UNIT, hit_side: HitSide::Horizontal, pos_x: 200, pos_y: 59 };
    assert_eq!(
        next_texture_column(None, &horizontal),
        TextureColumn { tile_x: 3, tile_y: 0, offset: 20 }
    );
    let vertical = Ray { distance: UNIT, hit_side: HitSide::Vertical, pos_x: 200, pos_y: 59 };
    assert_eq!(
        next_texture_column(None, &vertical),
        TextureColumn { tile_x: 3, tile_y: 0, offset: 59 }
    );
}

#[test]
fn ray_without_a_hit_gives_no_strip_and_keeps_the_column() {
    let first = vertical_hit(100 * UNIT, 420, 170);
    let second = vertical_hit(100 * UNIT, 420, 175);
    let strips = strips_of(&[first, Ray::new(), second]);
    assert_eq!(strips.len(), 2);
    assert_eq!((strips[0].column_x, strips[0].texture_column), (708, 50));
    assert_eq!((strips[1].column_x, strips[1].texture_column), (684, 38));
}

#[test]
fn ray_that_points_at_no_wall_gives_no_strip() {
    let inside = vertical_hit(100 * UNIT, 256, 256);
    let outside = vertical_hit(100 * UNIT, 500, 256);
    let half = Ray { distance: UNIT, hit_side: HitSide::Vertical, pos_x: 420, pos_y: -1 };
    assert_eq!(strips_of(&[inside, outside, half]), vec![]);
}

#[test]
fn strip_height_is_inverse_to_the_distance() {
    let cases: [(i64, i64, i64); 13] = [
        (100_000_000, 307, 102),
        (164_000_000, 187, 162),
        (30_000_000, 1024, -256),
        (60_000_000, 512, 0),
        (59_999_999, 512, 0),
        (60_000_001, 511, 0),
        (61_000_000, 503, 4),
        (59_000_000, 520, -4),
        (59_883_041, 512, 0),
        (59_883_040, 513, 0),
        (30_720_000_000, 1, 255),
        (30_720_000_001, 0, 255),
        (1, 30_720_000_000, -15_359_999_744),
    ];
    for (distance, height, top) in cases {
        let strips = strips_of(&[vertical_hit(distance, 420, 170)]);
        assert_eq!(strips, vec![strip(708, top, height, 1, 50)], "distance {}", distance);
    }
}

#[test]
fn strip_at_no_distance_is_as_tall_as_at_the_smallest() {
    for distance in [0, -5, i64::MIN] {
        let strips = strips_of(&[vertical_hit(distance, 420, 170)]);
        assert_eq!(strips, vec![strip(708, -15_359_999_744, 30_720_000_000, 1, 50)]);
    }
}

#[test]
fn texture_follows_tile_and_side() {
    let on_ring_vertical = strips_of(&[vertical_hit(100 * UNIT, 420, 170)]);
    assert_eq!(on_ring_vertical[0].texture_id, 1);
    let on_ring_horizontal = strips_of(&[Ray {
        distance: 100 * UNIT,
        hit_side: HitSide::Horizontal,
        pos_x: 200,
        pos_y: 59,
    }]);
    assert_eq!(on_ring_horizontal[0].texture_id, 0);
    let inner_vertical = strips_of(&[vertical_hit(100 * UNIT, 179, 150)]);
    assert_eq!(inner_vertical[0].texture_id, 3);
    let inner_horizontal = strips_of(&[Ray {
        distance: 100 * UNIT,
        hit_side: HitSide::Horizontal,
        pos_x: 150,
        pos_y: 179,
    }]);
    assert_eq!(inner_horizontal[0].texture_id, 2);
}

#[test]
fn fan_in_the_arena_is_projected_right_to_left() {
    let mut game = game_at(arena(), 256, 256, 60);
    game.rays = get_rays(&game);
    let strips = draw_rays(&game);
    assert_eq!(strips.len(), 60);
    for (index, s) in strips.iter().enumerate() {
        assert_eq!(s.column_x, 720 - 12 * (index as i32 + 1));
    }
    assert_eq!(strips[0], strip(708, 162, 187, 1, 41));
    assert_eq!(strips[1], strip(696, 164, 183, 1, 29));
    assert_eq!(strips[29], strip(360, 188, 134, 0, 13));
    assert_eq!(strips[30], strip(348, 188, 135, 0, 1));
    assert_eq!(strips[59], strip(0, 166, 179, 0, 2));
    let columns: Vec<i32> = strips.iter().map(|s| s.texture_column).collect();
    assert_eq!(
        columns,
        vec![
            41, 29, 17, 5, 25, 13, 1, 12, 0, 3, 58, 46, 34, 22, 10, 32, 20, 8, 13, 1, 0, 54, 42,
            30, 18, 6, 28, 16, 4, 13, 1, 4, 0, 55, 43, 31, 19, 7, 35, 23, 11, 23, 11, 15, 3, 8, 4,
            1, 57, 45, 33, 21, 9, 40, 28, 16, 4, 26, 14, 2
        ]
    );
}

#[test]
fn inner_wall_is_drawn_with_its_own_texture() {
    let mut game = game_at(arena(), 256, 150, 180);
    game.rays = get_rays(&game);
    let strips = draw_rays(&game);
    assert_eq!(
        strips[28..33].to_vec(),
        vec![
            strip(372, 53, 404, 3, 14),
            strip(360, 53, 404, 3, 2),
            strip(348, 53, 404, 3, 30),
            strip(336, 53, 404, 3, 18),
            strip(324, 53, 404, 3, 6),
        ]
    );
}

#[test]
fn upper_levels_are_drawn_first_and_stacked_above() {
    let mut upper = vec![vec![0u8; 8]; 8];
    upper[1][4] = 3;
    let map = GameMap::new(8, 8, vec![ring_level(8), upper]).unwrap();
    let mut game = game_at(map, 256, 256, 90);
    game.rays = get_rays(&game);
    let strips = draw_rays(&game);
    assert_eq!(strips.len(), 84);
    assert_eq!(strips[0], strip(552, -82, 225, 4, 57));
    assert_eq!(strips[1], strip(540, -82, 225, 4, 45));
    assert_eq!(strips[2], strip(528, -82, 225, 4, 33));
    assert_eq!(strips[23], strip(276, -82, 225, 4, 1));
    assert_eq!(strips[24], strip(708, 177, 156, 0, 9));
    assert_eq!(strips[83], strip(0, 177, 156, 0, 12));
}

#[test]
fn fresh_game_draws_nothing() {
    assert_eq!(draw_rays(&game_at(arena(), 256, 256, 60)), vec![]);
}

#[test]
fn every_hit_of_a_cast_is_drawn() {
    let mut upper = vec![vec![0u8; 8]; 8];
    upper[1][4] = 3;
    upper[6][2] = 2;
    let mut lower = ring_level(8);
    lower[2][2] = 2;
    let map = GameMap::new(8, 8, vec![lower, upper]).unwrap();
    for facing in (0..360).step_by(15) {
        let mut game = game_at(map.clone(), 256, 256, facing);
        game.rays = get_rays(&game);
        let hits = game.rays.iter().flatten().filter(|r| r.hit_side != HitSide::NoHit).count();
        let strips = draw_rays(&game);
        assert_eq!(strips.len(), hits);
        assert!(strips.iter().all(|s| s.height >= 0 && s.texture_column >= 0));
        assert!(strips.iter().all(|s| s.texture_column < 60 && s.texture_id < 6));
    }
}

#[test]
fn strip_top_comes_from_the_exact_height() {
    // At distance 100 the strip is 307.2 high: its top is at 256 - 153.6 = 102.4.
    let ray = Ray { distance: 100 * UNIT, hit_side: HitSide::Horizontal, pos_x: 70, pos_y: 59 };
    assert_eq!(strips_of(&[ray]), vec![strip(708, 102, 307, 0, 10)]);
}

#[test]
fn each_level_is_one_exact_height_higher() {
    let wall = ring_level(8);
    let map = GameMap::new(8, 8, vec![wall.clone(), wall.clone(), wall]).unwrap();
    let mut game = game_at(map, 256, 256, 0);
    let ray = Ray { distance: 100 * UNIT, hit_side: HitSide::Horizontal, pos_x: 70, pos_y: 59 };
    for level in 0..3 {
        game.rays[level][0] = ray;
    }
    // 102.4, 102.4 - 307.2 and 102.4 - 614.4, highest level first.
    assert_eq!(
        draw_rays(&game),
        vec![
            strip(708, -512, 307, 0, 10),
            strip(708, -204, 307, 0, 10),
            strip(708, 102, 307, 0, 10),
        ]
    );
    game.rays[2][0].distance = 59_883_040;
    game.rays[1][0].distance = 164 * UNIT;
    let tops: Vec<i64> = draw_rays(&game).iter().map(|s| s.top_y).collect();
    assert_eq!(tops, vec![-1026, -24, 102]);
}
