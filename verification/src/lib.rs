//! Core of a small 2D game: the map-file parser, the pixel-space resolver
//! and the plain state that the game loop drives.

pub mod constants;
pub mod decimal;
pub mod dialogue;
pub mod entity_builder;
pub mod integer;
pub mod geometry;
pub mod map_error;
pub mod map_format;
pub mod map_reader;
pub mod map_laws;
pub mod map_writer;
pub mod pixel_space;
pub mod pixel_laws;
pub mod textures;
