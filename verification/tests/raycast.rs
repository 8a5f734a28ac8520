use ya_raycaster::{
    calculate_distances, fix_fisheye, get_distance, get_rays, Game, GameMap, HitSide, Player, Ray,
    TraceHit, BLOCKSIZE, RAY_COUNT, UNIT,
};

fn empty_level(side: usize) -> Vec<Vec<u8>> {
    vec![vec![0u8; side]; side]
}

fn ring_level(side: usize) -> Vec<Vec<u8>> {
    let mut level = empty_level(side);
    for i in 0..side {
        level[0][i] = 1;
        level[side - 1][i] = 1;
        level[i][0] = 1;
        level[i][side - 1] = 1;
    }
    level
}

/// An 8 by 8 map with a closed outer ring and one more wall at tile (2, 2).
fn arena() -> GameMap {
    let mut level = ring_level(8);
    level[2][2] = 2;
    GameMap::new(8, 8, vec![level]).unwrap()
}

fn game_at(map: GameMap, x: i64, y: i64, angle: i32) -> Game {
    Game::new(Player::new(x * UNIT, y * UNIT, angle), map).unwrap()
}

fn hit(distance: i64, hit_side: HitSide, pos_x: i32, pos_y: i32) -> Ray {
    Ray { distance, hit_side, pos_x, pos_y }
}

#[test]
fn new_ray_is_the_no_hit_sentinel() {
    let ray = Ray::new();
    assert_eq!(ray.distance, -UNIT);
    assert_eq!(ray.hit_side, HitSide::NoHit);
    assert_eq!((ray.pos_x, ray.pos_y), (-1, -1));
}

#[test]
fn end_to_end_fan_in_the_arena() {
    let game = game_at(arena(), 256, 256, 60);
    let rays = get_rays(&game);
    assert_eq!(rays.len(), 1);
    assert_eq!(rays[0].len(), 60);
    assert_eq!(RAY_COUNT, 60);
    let diagonal = ((2.0f64).sqrt() * 8.0 * BLOCKSIZE as f64 * UNIT as f64) as i64;
    for ray in &rays[0] {
        assert_ne!(ray.hit_side, HitSide::NoHit);
        assert!(ray.pos_x != -1 && ray.pos_y != -1);
        assert!(ray.distance >= BLOCKSIZE * UNIT / 2, "{:?}", ray);
        assert!(ray.distance <= diagonal, "{:?}", ray);
    }
    assert_eq!(rays[0][0], hit(163_999_885, HitSide::Vertical, 420, 161));
    assert_eq!(rays[0][30], hit(226_322_407, HitSide::Horizontal, 369, 59));
    assert_eq!(rays[0][59], hit(171_452_557, HitSide::Horizontal, 259, 59));
    let nearest = rays[0].iter().map(|r| r.distance).min().unwrap();
    let farthest = rays[0].iter().map(|r| r.distance).max().unwrap();
    assert_eq!((nearest, farthest), (163_999_885, 251_262_442));
}

#[test]
fn centre_ray_along_each_axis() {
    let east = get_rays(&game_at(arena(), 256, 256, 0));
    assert_eq!(east[0][30], hit(164_000_000, HitSide::Vertical, 420, 256));
    let north = get_rays(&game_at(arena(), 256, 256, 90));
    assert_eq!(north[0][30], hit(196_001_000, HitSide::Horizontal, 256, 59));
    let west = get_rays(&game_at(arena(), 256, 256, 180));
    assert_eq!(west[0][30], hit(196_001_000, HitSide::Vertical, 59, 256));
    let south = get_rays(&game_at(arena(), 256, 256, 270));
    assert_eq!(south[0][30], hit(164_000_000, HitSide::Horizontal, 256, 420));
}

#[test]
fn ray_meets_the_inner_wall() {
    let rays = get_rays(&game_at(arena(), 256, 150, 180));
    assert_eq!(rays[0][30], hit(76_001_000, HitSide::Vertical, 179, 150));
    assert_eq!(rays[0][28], hit(76_001_023, HitSide::Vertical, 179, 147));
    assert_eq!(rays[0][32], hit(76_001_023, HitSide::Vertical, 179, 152));
}

#[test]
fn ray_at_a_degenerate_angle_uses_the_other_trace() {
    // Ray 10 of a player facing 200 degrees points at exactly 180 degrees.
    let rays = get_rays(&game_at(arena(), 256, 256, 200));
    assert_eq!(rays[0][10], hit(184_180_767, HitSide::Vertical, 59, 256));
}

#[test]
fn fan_is_centred_on_the_facing_angle() {
    let map = arena();
    for facing in [0, 45, 90, 200, 359] {
        let rays = get_rays(&game_at(map.clone(), 256, 256, facing));
        for index in [0usize, 17, 30, 59] {
            // The same absolute angle seen as the centre ray of another player.
            let angle = facing - 30 + index as i32;
            let centred = get_rays(&game_at(map.clone(), 256, 256, angle));
            let expected = centred[0][30];
            let seen = rays[0][index];
            assert_eq!(
                (seen.hit_side, seen.pos_x, seen.pos_y),
                (expected.hit_side, expected.pos_x, expected.pos_y)
            );
            assert_eq!(seen.distance, fix_fisheye(facing, angle, expected.distance));
        }
    }
}

#[test]
fn open_map_gives_only_no_hit_rays() {
    let map = GameMap::new(8, 8, vec![empty_level(8), empty_level(8)]).unwrap();
    let rays = get_rays(&game_at(map, 100, 300, 123));
    assert_eq!(rays.len(), 2);
    for level in &rays {
        assert_eq!(level.len(), 60);
        for ray in level {
            assert_eq!(*ray, Ray::new());
        }
    }
}

#[test]
fn enclosed_map_never_gives_a_no_hit_ray() {
    let map = arena();
    // Corners of the free space, its middle, grid lines, and a point in the inner wall.
    let places = [
        (60, 60),
        (256, 256),
        (419, 60),
        (60, 419),
        (419, 419),
        (200, 100),
        (300, 240),
        (150, 150),
    ];
    for (x, y) in places {
        for facing in 0..360 {
            let rays = get_rays(&game_at(map.clone(), x, y, facing));
            for ray in &rays[0] {
                assert_ne!(ray.hit_side, HitSide::NoHit, "at ({}, {}) facing {}", x, y, facing);
                assert!(ray.distance >= 0);
            }
        }
    }
}

#[test]
fn levels_are_traced_independently() {
    let mut upper = empty_level(8);
    upper[1][4] = 3;
    let map = GameMap::new(8, 8, vec![ring_level(8), upper]).unwrap();
    let rays = get_rays(&game_at(map, 256, 256, 90));
    assert_eq!(rays.len(), 2);
    assert_eq!(rays[0][0], hit(196_000_862, HitSide::Horizontal, 369, 59));
    assert_eq!(rays[1][0], Ray::new());
    assert_eq!(rays[0][30], hit(196_001_000, HitSide::Horizontal, 256, 59));
    assert_eq!(rays[1][30], hit(136_001_000, HitSide::Horizontal, 256, 119));
    assert_eq!(rays[0][59], hit(196_001_172, HitSide::Horizontal, 147, 59));
    assert_eq!(rays[1][59], Ray::new());
    assert_eq!(rays[1].iter().filter(|r| r.hit_side != HitSide::NoHit).count(), 24);
}

#[test]
fn traces_report_each_grid_family() {
    let map = arena();
    let (x, y) = (256 * UNIT, 256 * UNIT);
    assert_eq!(
        calculate_distances(&map, x, y, 45, false),
        vec![Some(TraceHit { distance: 277_187_358, x: 452, y: 59 })]
    );
    assert_eq!(
        calculate_distances(&map, x, y, 45, true),
        vec![Some(TraceHit { distance: 231_931_096, x: 420, y: 92 })]
    );
    // The horizontal trace leaves the map on the left before it meets a wall.
    assert_eq!(calculate_distances(&map, x, y, 200, false), vec![None]);
    assert_eq!(
        calculate_distances(&map, x, y, 200, true),
        vec![Some(TraceHit { distance: 208_579_951, x: 59, y: 327 })]
    );
}

#[test]
fn traces_at_degenerate_angles_report_nothing() {
    let map = arena();
    let (x, y) = (256 * UNIT, 256 * UNIT);
    assert_eq!(calculate_distances(&map, x, y, 0, false), vec![None]);
    assert_eq!(calculate_distances(&map, x, y, 180, false), vec![None]);
    assert_eq!(calculate_distances(&map, x, y, 90, true), vec![None]);
    assert_eq!(calculate_distances(&map, x, y, 270, true), vec![None]);
    assert!(calculate_distances(&map, x, y, 0, true)[0].is_some());
    assert!(calculate_distances(&map, x, y, 90, false)[0].is_some());
}

#[test]
fn hit_right_at_the_player_has_distance_zero() {
    let map = GameMap::new(3, 3, vec![ring_level(3)]).unwrap();
    let hits = calculate_distances(&map, 90 * UNIT, 120 * UNIT - 1, 300, false);
    assert_eq!(hits, vec![Some(TraceHit { distance: 0, x: 90, y: 120 })]);
}

#[test]
fn distance_is_measured_along_the_ray() {
    assert_eq!(get_distance(0, 0, 3 * UNIT, -4 * UNIT, 53), 4_999_989);
    assert_eq!(get_distance(256 * UNIT, 256 * UNIT, 420 * UNIT, 161_314_779, 30), 189_370_710);
    assert_eq!(get_distance(0, 0, 100 * UNIT, 0, 0), 100 * UNIT);
    assert_eq!(get_distance(0, 0, 0, -100 * UNIT, 90), 100 * UNIT);
    assert_eq!(get_distance(0, 0, 0, 100 * UNIT, 90), -100 * UNIT);
    assert_eq!(get_distance(7, 9, 7, 9, 211), 0);
}

#[test]
fn fisheye_correction_scales_by_the_cosine() {
    assert_eq!(fix_fisheye(60, 30, 100 * UNIT), 86_602_500);
    assert_eq!(fix_fisheye(60, 60, 123_456_789), 123_456_789);
    assert_eq!(fix_fisheye(0, 359, 100 * UNIT), 99_984_800);
    assert_eq!(fix_fisheye(10, 100, 100 * UNIT), 0);
    assert_eq!(fix_fisheye(0, 180, 100 * UNIT), -100 * UNIT);
    assert_eq!(fix_fisheye(60, 30, -100 * UNIT + 1), -86_602_500);
}

#[test]
fn fisheye_correction_never_lengthens() {
    for raw in [0i64, 1, 2, 999_999, 1_000_000, 164 * UNIT, 9_000_000_000_000] {
        for offset in -360..=360 {
            let corrected = fix_fisheye(77, 77 - offset, raw);
            assert!(corrected <= raw);
            if raw > 0 {
                assert_eq!(corrected == raw, offset % 360 == 0, "raw {} offset {}", raw, offset);
            }
        }
    }
}

#[test]
fn fisheye_correction_grows_with_the_distance() {
    for offset in -30..=30 {
        let mut last = fix_fisheye(60, 60 + offset, 0);
        for raw in (0..200).map(|n| n * 1_234_567) {
            let corrected = fix_fisheye(60, 60 + offset, raw);
            assert!(corrected >= last);
            last = corrected;
        }
    }
}

#[test]
fn distance_grows_as_the_wall_recedes() {
    // One wall tile straight ahead of the player, further away each time.
    let mut last = 0;
    for column in 3..16 {
        let mut level = empty_level(16);
        level[2][column] = 1;
        let map = GameMap::new(16, 16, vec![level]).unwrap();
        let rays = get_rays(&game_at(map, 130, 150, 0));
        let centre = rays[0][30];
        assert_eq!(centre.hit_side, HitSide::Vertical);
        assert_eq!(centre.pos_x, column as i32 * 60);
        assert_eq!(centre.distance, (column as i64 * 60 - 130) * UNIT);
        assert!(centre.distance > last);
        last = centre.distance;
        // Seen from the side the same wall is further along the ray but
        // no nearer after the correction.
        let oblique = rays[0][35];
        if oblique.hit_side != HitSide::NoHit {
            assert!(oblique.distance >= centre.distance - 1_000);
        }
    }
}

#[test]
fn hits_are_never_at_a_negative_distance() {
    let map = arena();
    for (x, y) in [(60, 60), (119, 119), (256, 256), (180, 180), (419, 60)] {
        for facing in (0..360).step_by(7) {
            let game = Game::new(Player::new(x * UNIT + 1, y * UNIT, facing), map.clone()).unwrap();
            for ray in &get_rays(&game)[0] {
                assert!(ray.hit_side == HitSide::NoHit || ray.distance >= 0);
            }
        }
    }
}

#[test]
fn traces_take_angles_up_to_whole_turns() {
    let map = arena();
    let (x, y) = (256 * UNIT, 256 * UNIT);
    for vertical in [false, true] {
        let plain = calculate_distances(&map, x, y, 45, vertical);
        assert_eq!(calculate_distances(&map, x, y, 405, vertical), plain);
        assert_eq!(calculate_distances(&map, x, y, -315, vertical), plain);
        assert_eq!(calculate_distances(&map, x, y, 45 + 360 * 1000, vertical), plain);
    }
    assert_eq!(calculate_distances(&map, x, y, 360, false), vec![None]);
    assert_eq!(calculate_distances(&map, x, y, -90, true), vec![None]);
}

#[test]
fn flat_wall_is_at_one_distance_and_recedes_by_the_step() {
    // Only the top row is wall; the player faces it squarely.
    let mut level = empty_level(16);
    for column in 0..16 {
        level[0][column] = 1;
    }
    let map = GameMap::new(16, 16, vec![level]).unwrap();
    let places: [i64; 5] = [61, 100, 256, 500, 959];
    let mut fans = Vec::new();
    for y in places {
        let game = Game::new(Player::new(480 * UNIT + 17, y * UNIT + 3, 90), map.clone()).unwrap();
        let rays = get_rays(&game);
        // The wall is sampled a thousandth of a unit above its lower edge.
        let depth = y * UNIT + 3 - (60 * UNIT - 1_000);
        let mut hits = 0;
        for ray in &rays[0] {
            if ray.hit_side == HitSide::NoHit {
                continue;
            }
            hits += 1;
            assert_eq!((ray.hit_side, ray.pos_y), (HitSide::Horizontal, 59));
            let off = 2 * UNIT * (ray.distance - depth);
            assert!(-(3 * depth + 6 * UNIT) <= off && off <= 3 * depth + 2 * UNIT);
            assert!((ray.distance - depth).abs() <= 50_000);
        }
        assert!(hits >= 30);
        assert_eq!(rays[0][30].distance, depth);
        fans.push(rays);
    }
    for (near, far) in [(0usize, 1usize), (1, 2), (0, 4), (2, 3)] {
        let step = (places[far] - places[near]) * UNIT;
        for index in 0..60 {
            let (before, after) = (fans[near][0][index], fans[far][0][index]);
            if before.hit_side != HitSide::NoHit && after.hit_side != HitSide::NoHit {
                assert!(after.distance > before.distance);
                assert!((after.distance - before.distance - step).abs() <= 50_000);
            }
        }
    }
}

#[test]
fn fisheye_correction_takes_every_distance() {
    assert_eq!(fix_fisheye(0, 0, i64::MAX), i64::MAX);
    assert_eq!(fix_fisheye(0, 180, i64::MAX), -i64::MAX);
    assert_eq!(fix_fisheye(0, 180, -i64::MAX), i64::MAX);
    assert_eq!(fix_fisheye(0, 90, i64::MAX), 0);
    assert_eq!(fix_fisheye(0, 60, i64::MAX), 4_611_686_018_427_387_903);
    assert_eq!(fix_fisheye(60, 0, i64::MIN + 1), -4_611_686_018_427_387_904);
    assert_eq!(fix_fisheye(33, 33, i64::MIN), i64::MIN);
    assert_eq!(fix_fisheye(0, 90, i64::MIN), 0);
    assert_eq!(fix_fisheye(0, 179, i64::MIN), 9_221_970_084_305_173_882);
    assert_eq!(fix_fisheye(0, 181, i64::MIN), 9_221_970_084_305_173_882);
    for offset in 0..360 {
        for distance in [i64::MAX, i64::MIN + 1, 9_000_000_000_001, -9_000_000_000_001] {
            let corrected = fix_fisheye(offset, 0, distance);
            assert!(corrected.abs() <= distance.abs());
            assert_eq!(corrected == distance, offset == 0);
        }
    }
}
