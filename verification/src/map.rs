//! The map: a grid of tiles in stacked levels, asked by world coordinates.

use vstd::prelude::*;

verus! {

/// Side length of one tile in world units.
pub const BLOCKSIZE: i64 = 60;

/// Side length of one tile in fixed-point units.
pub const CELL: i64 = 60_000_000;

/// Largest number of tiles along one side of a map.
pub const MAX_MAP_SIDE: usize = 1024;

/// Largest number of stacked levels of a map.
pub const MAX_LEVELS: usize = 16;

/// Why a map was rejected at construction.
#[derive(Debug, Clone, Copy, PartialEq, Eq, Structural)]
pub enum MapError {
    /// A side is zero or longer than `MAX_MAP_SIDE`.
    InvalidSize,
    /// There is no level, or more than `MAX_LEVELS`.
    InvalidLevelCount,
    /// A level does not have `length` rows of `width` tiles each.
    MismatchedLevel,
}

/// A grid of tiles in stacked levels. Tile id 0 is empty; any other id is
/// a wall and names its texture. `levels[level][row][column]` is the tile
/// whose corner is at world point `(column, row)` times the tile size.
#[derive(Debug, Clone)]
pub struct GameMap {
    pub width: usize,
    pub length: usize,
    pub levels: Vec<Vec<Vec<u8>>>,
}

/// Every row of `level` up to `rows` has `width` tiles.
pub open spec fn rows_have_width(level: Seq<Vec<u8>>, rows: int, width: int) -> bool {
    forall|r: int| 0 <= r < rows ==> (#[trigger] level[r]).len() == width
}

/// `level` has `length` rows of `width` tiles each.
pub open spec fn level_has_shape(level: Seq<Vec<u8>>, width: int, length: int) -> bool {
    level.len() == length && rows_have_width(level, length, width)
}

/// Every level up to `count` has the given shape.
pub open spec fn levels_have_shape(
    levels: Seq<Vec<Vec<u8>>>,
    count: int,
    width: int,
    length: int,
) -> bool {
    forall|l: int| 0 <= l < count ==> level_has_shape((#[trigger] levels[l])@, width, length)
}

/// What is wrong with the parts of a map, if anything. The sides are looked
/// at first, then the number of levels, then the shape of each level.
pub open spec fn map_check(width: int, length: int, levels: Seq<Vec<Vec<u8>>>) -> Option<
    MapError,
> {
    if width < 1 || width > MAX_MAP_SIDE || length < 1 || length > MAX_MAP_SIDE {
        Some(MapError::InvalidSize)
    } else if levels.len() < 1 || levels.len() > MAX_LEVELS {
        Some(MapError::InvalidLevelCount)
    } else if !levels_have_shape(levels, levels.len() as int, width, length) {
        Some(MapError::MismatchedLevel)
    } else {
        None
    }
}

/// Checks the parts of a map and names what is wrong with them, if anything.
pub fn check_map(width: usize, length: usize, levels: &Vec<Vec<Vec<u8>>>) -> (r: Option<MapError>)
    ensures
        r == map_check(width as int, length as int, levels@),
{
    if width < 1 || width > MAX_MAP_SIDE || length < 1 || length > MAX_MAP_SIDE {
        return Some(MapError::InvalidSize);
    }
    if levels.len() < 1 || levels.len() > MAX_LEVELS {
        return Some(MapError::InvalidLevelCount);
    }
    let mut l: usize = 0;
    while l < levels.len()
        invariant
            l <= levels.len(),
            1 <= width <= MAX_MAP_SIDE,
            1 <= length <= MAX_MAP_SIDE,
            1 <= levels.len() <= MAX_LEVELS,
            levels_have_shape(levels@, l as int, width as int, length as int),
        decreases levels.len() - l,
    {
        if levels[l].len() != length {
            assert(!level_has_shape(levels@[l as int]@, width as int, length as int));
            return Some(MapError::MismatchedLevel);
        }
        let mut r: usize = 0;
        while r < length
            invariant
                l < levels.len(),
                r <= length,
                1 <= width <= MAX_MAP_SIDE,
                1 <= length <= MAX_MAP_SIDE,
                1 <= levels.len() <= MAX_LEVELS,
                levels[l as int].len() == length,
                rows_have_width(levels[l as int]@, r as int, width as int),
            decreases length - r,
        {
            if levels[l][r].len() != width {
                assert(!rows_have_width(levels@[l as int]@, length as int, width as int));
                assert(!level_has_shape(levels@[l as int]@, width as int, length as int));
                return Some(MapError::MismatchedLevel);
            }
            r += 1;
        }
        l += 1;
    }
    None
}

impl GameMap {
    /// The map's dimensions are within limits and all levels share them.
    pub open spec fn wf(&self) -> bool {
        map_check(self.width as int, self.length as int, self.levels@) is None
    }

    /// Number of levels.
    pub open spec fn level_count(&self) -> int {
        self.levels.len() as int
    }

    /// Extent of the world along x, in fixed-point units.
    pub open spec fn world_width(&self) -> int {
        self.width * CELL
    }

    /// Extent of the world along y, in fixed-point units.
    pub open spec fn world_length(&self) -> int {
        self.length * CELL
    }

    /// The world point lies on the map.
    pub open spec fn in_bounds(&self, x: int, y: int) -> bool {
        0 <= x < self.world_width() && 0 <= y < self.world_length()
    }

    /// Tile id stored at a column and row of a level.
    pub open spec fn tile(&self, level: int, column: int, row: int) -> u8 {
        self.levels[level][row][column]
    }

    /// Tile id at a world point: the stored tile where the level exists and
    /// the point lies on the map, and 0 (empty) everywhere else.
    pub open spec fn level_at(&self, level: int, x: int, y: int) -> u8 {
        if 0 <= level < self.level_count() && self.in_bounds(x, y) {
            self.tile(level, x / (CELL as int), y / (CELL as int))
        } else {
            0
        }
    }

    /// Builds a map from its parts, rejecting sides out of range, a level
    /// count out of range and levels whose shape is not `length` by `width`.
    pub fn new(width: usize, length: usize, levels: Vec<Vec<Vec<u8>>>) -> (r: Result<
        GameMap,
        MapError,
    >)
        ensures
            match r {
                Ok(m) => map_check(width as int, length as int, levels@) is None && m.wf()
                    && m.width == width && m.length == length && m.levels == levels,
                Err(e) => map_check(width as int, length as int, levels@) == Some(e),
            },
    {
        match check_map(width, length, &levels) {
            Some(e) => Err(e),
            None => Ok(GameMap { width, length, levels }),
        }
    }

    /// Whether the map is well formed.
    pub fn is_valid(&self) -> (valid: bool)
        ensures
            valid == self.wf(),
    {
        check_map(self.width, self.length, &self.levels).is_none()
    }

    /// Tile id of `level` at the world point `(x, y)`; 0 where the point is
    /// off the map or the level does not exist.
    pub fn get_level(&self, level: i32, x: i64, y: i64) -> (id: u8)
        requires
            self.wf(),
        ensures
            id == self.level_at(level as int, x as int, y as int),
    {
        if level < 0 || level as usize >= self.levels.len() || out_of_index(self, x, y) {
            return 0;
        }
        let column: usize = (x / CELL) as usize;
        let row: usize = (y / CELL) as usize;
        assert(self.levels[level as int]@.len() == self.length);
        assert(level_has_shape(self.levels[level as int]@, self.width as int, self.length as int));
        self.levels[level as usize][row][column]
    }
}

/// True when the world point `(x, y)` does not lie on the map.
pub fn out_of_index(map: &GameMap, x_position: i64, y_position: i64) -> (out: bool)
    requires
        map.wf(),
    ensures
        out == !map.in_bounds(x_position as int, y_position as int),
{
    if x_position < 0 || y_position < 0 {
        return true;
    }
    let column: i64 = x_position / CELL;
    let row: i64 = y_position / CELL;
    column >= map.width as i64 || row >= map.length as i64
}

} // verus!
