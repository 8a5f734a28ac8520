pub mod bullet;
pub mod enclosure;
pub mod fisheye;
pub mod fixed;
pub mod flat;
pub mod frame;
pub mod game;
pub mod map;
pub mod movement;
pub mod overlay;
pub mod raycast;
pub mod render;
pub mod traces;
pub mod trig;

pub use bullet::{fire, BULLET_SPEED};
pub use fixed::UNIT;
pub use frame::{next_frame, Frame};
pub use game::{Game, Player};
pub use map::{out_of_index, GameMap, MapError, BLOCKSIZE};
pub use movement::{move_player, PressedKeys, PLAYER_SPEED, ROTATION_SPEED};
pub use overlay::{draw_2d_world, normalize_for_minimap, Overlay, ScreenRect};
pub use fisheye::fix_fisheye;
pub use raycast::{
    calculate_distances, get_distance, get_rays, HitSide, Ray, TraceHit, RAY_COUNT,
};
pub use render::{
    draw_rays, next_texture_column, Strip, TextureColumn, RAY_DRAWING_WIDTH, WINDOW_HEIGHT,
    WINDOW_WIDTH,
};
pub use trig::{cosine, get_deltas, normalize_angle, sine};
