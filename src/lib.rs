//! Seed-driven procedural level generation for a multiplayer game world.
//!
//! Room blueprints are read from ASCII patterns, placed on a coarse grid around a
//! central room, drawn onto a tile canvas, joined by doors where connectors of
//! neighbouring rooms touch, and given spawn points for arriving players.

pub mod canvas;
pub mod dungeon;
pub mod error;
pub mod laws;
pub mod layout;
pub mod level;
pub mod manager;
pub mod parser;
pub mod rng;
pub mod room;
pub mod sample;
pub mod spawn;
pub mod template;
pub mod tile;
pub mod town;
pub mod validate;

pub use dungeon::DungeonGenerator;
pub use error::GenerationError;
pub use level::{Generator, LevelMetadata, LevelParams, LevelResult, MapType};
pub use manager::{RoomManager, RoomTypeWeights};
pub use parser::{ParsedRoom, TemplateError};
pub use room::{Room, RoomUtils};
pub use sample::{generate_example_map, run_example};
pub use template::{RoomTemplate, RoomType};
pub use tile::{is_tile_walkable, Position, TileType};
pub use town::TownGenerator;
pub use validate::{validate_message, validate_name};
