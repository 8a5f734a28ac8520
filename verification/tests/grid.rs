use ya_raycaster::{out_of_index, GameMap, MapError, UNIT};

fn empty_level(width: usize, length: usize) -> Vec<Vec<u8>> {
    vec![vec![0u8; width]; length]
}

fn ring_level(side: usize) -> Vec<Vec<u8>> {
    let mut level = empty_level(side, side);
    for i in 0..side {
        level[0][i] = 1;
        level[side - 1][i] = 1;
        level[i][0] = 1;
        level[i][side - 1] = 1;
    }
    level
}

#[test]
fn test_out_of_index() {
    let map = GameMap::new(8, 8, vec![empty_level(8, 8)]).unwrap();
    assert_eq!(out_of_index(&map, 0 * UNIT, 0 * UNIT), false);
    assert_eq!(out_of_index(&map, 64 * UNIT, 64 * UNIT), false);
    assert_eq!(out_of_index(&map, 513 * UNIT, 513 * UNIT), true);
    assert_eq!(out_of_index(&map, 1000 * UNIT, 70 * UNIT), true);
    assert_eq!(out_of_index(&map, 70 * UNIT, 1000 * UNIT), true);
}

#[test]
fn out_of_index_at_the_edges() {
    let map = GameMap::new(3, 2, vec![empty_level(3, 2)]).unwrap();
    assert!(!out_of_index(&map, 0, 0));
    assert!(out_of_index(&map, -1, 0));
    assert!(out_of_index(&map, 0, -1));
    assert!(!out_of_index(&map, 180 * UNIT - 1, 120 * UNIT - 1));
    assert!(out_of_index(&map, 180 * UNIT, 0));
    assert!(out_of_index(&map, 0, 120 * UNIT));
    assert!(!out_of_index(&map, 179 * UNIT, 0));
    assert!(out_of_index(&map, 0, 179 * UNIT));
}

#[test]
fn get_level_reads_the_tile_under_a_point() {
    let mut lower = empty_level(3, 2);
    lower[1][2] = 7;
    let mut upper = empty_level(3, 2);
    upper[0][1] = 9;
    let map = GameMap::new(3, 2, vec![lower, upper]).unwrap();
    assert_eq!(map.get_level(0, 120 * UNIT, 60 * UNIT), 7);
    assert_eq!(map.get_level(0, 179 * UNIT, 119 * UNIT), 7);
    assert_eq!(map.get_level(0, 120 * UNIT - 1, 60 * UNIT), 0);
    assert_eq!(map.get_level(0, 120 * UNIT, 60 * UNIT - 1), 0);
    assert_eq!(map.get_level(1, 120 * UNIT, 60 * UNIT), 0);
    assert_eq!(map.get_level(1, 60 * UNIT, 0), 9);
    assert_eq!(map.get_level(1, 119 * UNIT, 59 * UNIT), 9);
}

#[test]
fn get_level_is_empty_off_the_map_and_off_the_levels() {
    let map = GameMap::new(4, 4, vec![ring_level(4)]).unwrap();
    assert_eq!(map.get_level(0, 0, 0), 1);
    assert_eq!(map.get_level(0, -1, 0), 0);
    assert_eq!(map.get_level(0, 0, -1), 0);
    assert_eq!(map.get_level(0, 240 * UNIT, 0), 0);
    assert_eq!(map.get_level(0, 0, 240 * UNIT), 0);
    assert_eq!(map.get_level(1, 0, 0), 0);
    assert_eq!(map.get_level(-1, 0, 0), 0);
    assert_eq!(map.get_level(0, i64::MAX, i64::MIN), 0);
}

#[test]
fn map_with_a_wrong_size_is_rejected() {
    assert_eq!(GameMap::new(0, 4, vec![empty_level(0, 4)]).err(), Some(MapError::InvalidSize));
    assert_eq!(GameMap::new(4, 0, vec![empty_level(4, 0)]).err(), Some(MapError::InvalidSize));
    assert_eq!(
        GameMap::new(1025, 1, vec![empty_level(1025, 1)]).err(),
        Some(MapError::InvalidSize)
    );
    assert_eq!(
        GameMap::new(1, 1025, vec![empty_level(1, 1025)]).err(),
        Some(MapError::InvalidSize)
    );
    assert!(GameMap::new(1024, 1, vec![empty_level(1024, 1)]).is_ok());
    assert!(GameMap::new(1, 1, vec![empty_level(1, 1)]).is_ok());
}

#[test]
fn map_with_a_wrong_level_count_is_rejected() {
    assert_eq!(GameMap::new(2, 2, vec![]).err(), Some(MapError::InvalidLevelCount));
    assert_eq!(
        GameMap::new(2, 2, vec![empty_level(2, 2); 17]).err(),
        Some(MapError::InvalidLevelCount)
    );
    assert!(GameMap::new(2, 2, vec![empty_level(2, 2); 16]).is_ok());
    // The size is looked at before the levels.
    assert_eq!(GameMap::new(0, 2, vec![]).err(), Some(MapError::InvalidSize));
}

#[test]
fn map_with_a_mismatched_level_is_rejected() {
    assert_eq!(
        GameMap::new(2, 2, vec![empty_level(2, 2), empty_level(2, 3)]).err(),
        Some(MapError::MismatchedLevel)
    );
    assert_eq!(
        GameMap::new(2, 2, vec![empty_level(3, 2)]).err(),
        Some(MapError::MismatchedLevel)
    );
    let mut ragged = empty_level(2, 2);
    ragged[1].push(0);
    assert_eq!(
        GameMap::new(2, 2, vec![empty_level(2, 2), ragged]).err(),
        Some(MapError::MismatchedLevel)
    );
}

#[test]
fn map_keeps_its_parts() {
    let levels = vec![ring_level(5), empty_level(5, 5)];
    let map = GameMap::new(5, 5, levels.clone()).unwrap();
    assert_eq!(map.width, 5);
    assert_eq!(map.length, 5);
    assert_eq!(map.levels, levels);
    assert!(map.is_valid());
    let mut broken = map.clone();
    broken.width = 6;
    assert!(!broken.is_valid());
}
