//! A chunked voxel world: blocks, chunks of 32 x 32 x 32 cells, a sparse world
//! of chunks addressed by integer coordinates, and the queries a renderer asks
//! of it.

pub mod block;
pub mod chunk;
pub mod color;
pub mod pacing;
pub mod reach;
pub mod sequences;
pub mod space;
pub mod vertex;
pub mod world;
pub mod worldgen;
