//! The fixed numbers and tables of the game.

use vstd::prelude::*;

verus! {

/// The width of the game's own pixel space.
pub const LOGICAL_WIDTH: u32 = 1280;

/// The height of the game's own pixel space.
pub const LOGICAL_HEIGHT: u32 = 720;

/// The size of the dialogue font.
pub const DEFAULT_FONT_SIZE: u16 = 50;

/// The space index of the textures of the characters.
pub const NPC_SPACE: usize = 1;

/// The space index of the textures of the map.
pub const GEOMETRY_SPACE: usize = 2;

/// How the image of a texture is laid out.
#[derive(Clone, Copy, Debug, PartialEq, Eq, Structural)]
pub enum TextureType {
    /// The image is the texture.
    Standalone,
    /// The image holds several textures side by side, each as wide as the
    /// number given.
    Atlas(usize),
}

} // verus!
