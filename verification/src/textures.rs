//! Where the textures are: from a texture reference to the file that holds
//! the image and to the part of the image that is meant.

use crate::constants::{TextureType, GEOMETRY_SPACE, NPC_SPACE};
use crate::geometry::TextureIndex;
use vstd::prelude::*;
use vstd::string::StringExecFns;

verus! {

/// The directory that holds the textures of all spaces.
pub const ROOT_TEXTURES_PATH: &'static str = "./assets/textures";

/// The number of textures of the characters.
pub const NPC_TEXTURE_COUNT: usize = 1;

/// The number of textures of the map.
pub const GEOMETRY_TEXTURE_COUNT: usize = 1;

/// One texture of a table: how its image is laid out, and the name of the
/// file.
#[derive(Clone, Copy, Debug)]
pub struct TextureEntry {
    pub kind: TextureType,
    pub file_name: &'static str,
}

/// The table of the textures of the characters.
pub open spec fn npc_texture_spec(index: nat) -> Option<(TextureType, Seq<char>)> {
    if index == 0 {
        Some((TextureType::Standalone, "test_npc.png"@))
    } else {
        None
    }
}

/// The table of the textures of the map.
pub open spec fn geometry_texture_spec(index: nat) -> Option<(TextureType, Seq<char>)> {
    if index == 0 {
        Some((TextureType::Standalone, "LongSongNoHeart.png"@))
    } else {
        None
    }
}

/// The entry `index` of the table of the characters' textures.
pub fn npc_texture(index: usize) -> (entry: Option<TextureEntry>)
    ensures
        match entry {
            Some(e) => npc_texture_spec(index as nat) == Some((e.kind, e.file_name@)),
            None => npc_texture_spec(index as nat) is None,
        },
        entry is Some <==> index < NPC_TEXTURE_COUNT,
{
    if index == 0 {
        Some(TextureEntry { kind: TextureType::Standalone, file_name: "test_npc.png" })
    } else {
        None
    }
}

/// The entry `index` of the table of the map's textures.
pub fn geometry_texture(index: usize) -> (entry: Option<TextureEntry>)
    ensures
        match entry {
            Some(e) => geometry_texture_spec(index as nat) == Some((e.kind, e.file_name@)),
            None => geometry_texture_spec(index as nat) is None,
        },
        entry is Some <==> index < GEOMETRY_TEXTURE_COUNT,
{
    if index == 0 {
        Some(TextureEntry { kind: TextureType::Standalone, file_name: "LongSongNoHeart.png" })
    } else {
        None
    }
}

/// A texture to load: the path of its file and how the image is laid out.
#[derive(Debug)]
pub struct TextureRequest {
    pub path: String,
    pub kind: TextureType,
}

/// The space of a texture reference has no directory.
#[derive(Clone, Copy, Debug, PartialEq, Eq, Structural)]
pub struct UnknownTextureSpace {
    pub space_index: usize,
}

/// The part of an atlas that one texture takes: from `x`, `width` wide, over
/// the whole height of the image.
#[derive(Clone, Copy, Debug, PartialEq, Eq, Structural)]
pub struct AtlasSlot {
    pub x: usize,
    pub width: usize,
}

/// The path of a texture: the root, the directory of the space and the name
/// of the file, with a `/` between each two.
pub open spec fn texture_path_spec(space_dir: Seq<char>, file_name: Seq<char>) -> Seq<char> {
    ROOT_TEXTURES_PATH@ + "/"@ + space_dir + "/"@ + file_name
}

/// The entry of the table that a texture reference means, with the directory
/// of its space.
pub open spec fn texture_entry_spec(space_index: nat, texture_index: nat) -> Option<
    (Seq<char>, TextureType, Seq<char>),
> {
    if space_index == NPC_SPACE {
        match npc_texture_spec(texture_index) {
            Some((kind, file_name)) => Some(("npc"@, kind, file_name)),
            None => None,
        }
    } else if space_index == GEOMETRY_SPACE {
        match geometry_texture_spec(texture_index) {
            Some((kind, file_name)) => Some(("geometry"@, kind, file_name)),
            None => None,
        }
    } else {
        None
    }
}

fn texture_path(space_dir: &str, file_name: &str) -> (path: String)
    ensures
        path@ == texture_path_spec(space_dir@, file_name@),
{
    let mut path = String::from_str(ROOT_TEXTURES_PATH);
    path.append("/");
    path.append(space_dir);
    path.append("/");
    path.append(file_name);
    path
}

impl TextureIndex {
    /// The reference names a space that has a table, and an entry of that
    /// table.
    pub open spec fn in_tables(&self) -> bool {
        texture_entry_spec(self@.space_index, self@.texture_index) is Some
    }

    /// The reference names one of the spaces that have a table, but no entry
    /// of that table.
    pub open spec fn beyond_table(&self) -> bool {
        (self@.space_index == NPC_SPACE || self@.space_index == GEOMETRY_SPACE)
            && !self.in_tables()
    }

    /// Where to load the texture from. A space without a directory is an
    /// error. An index beyond the table of its space must not be asked for.
    pub fn texture_request(&self) -> (r: Result<TextureRequest, UnknownTextureSpace>)
        requires
            !self.beyond_table(),
        ensures
            match r {
                Ok(request) => texture_entry_spec(self@.space_index, self@.texture_index)
                    matches Some((dir, kind, file_name)) && request.kind == kind
                    && request.path@ == texture_path_spec(dir, file_name),
                Err(e) => e.space_index == self@.space_index && self@.space_index != NPC_SPACE
                    && self@.space_index != GEOMETRY_SPACE,
            },
    {
        let space = self.space_index();
        if space == NPC_SPACE {
            let entry = npc_texture(self.texture_index()).unwrap();
            Ok(TextureRequest { path: texture_path("npc", entry.file_name), kind: entry.kind })
        } else if space == GEOMETRY_SPACE {
            let entry = geometry_texture(self.texture_index()).unwrap();
            Ok(TextureRequest { path: texture_path("geometry", entry.file_name), kind: entry.kind })
        } else {
            Err(UnknownTextureSpace { space_index: space })
        }
    }

    /// The part of the image that this reference means: all of a standalone
    /// image, and of an atlas the slot that the reference names. A reference
    /// into an atlas must name a slot.
    pub fn atlas_slot(&self, kind: TextureType) -> (slot: Option<AtlasSlot>)
        requires
            kind matches TextureType::Atlas(width) ==> self@.inner_index matches Some(i) && width
                * i <= usize::MAX,
        ensures
            slot == match kind {
                TextureType::Atlas(width) => Some(
                    AtlasSlot { x: (width * self@.inner_index.unwrap()) as usize, width },
                ),
                TextureType::Standalone => None,
            },
    {
        match kind {
            TextureType::Atlas(width) => {
                match self.inner_index() {
                    Some(i) => Some(AtlasSlot { x: width * i, width }),
                    None => None,
                }
            },
            TextureType::Standalone => None,
        }
    }
}

} // verus!
