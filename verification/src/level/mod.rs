//! Level generation: tiles, tile grids, rooms, the room graph and passages.

pub mod draw;
pub mod level;
pub mod maze;
pub mod passages;
pub mod roomgraph;
pub mod rooms;
pub mod structure;
pub mod tile;
