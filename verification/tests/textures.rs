use game::constants::TextureType;
use game::geometry::TextureIndex;
use game::textures::{
    geometry_texture, npc_texture, AtlasSlot, UnknownTextureSpace, ROOT_TEXTURES_PATH,
};

#[test]
fn texture_index_keeps_its_parts() {
    let t = TextureIndex::new(2, 5, Some(9));
    assert_eq!(t.space_index(), 2);
    assert_eq!(t.texture_index(), 5);
    assert_eq!(t.inner_index(), Some(9));
    assert_eq!(TextureIndex::new(1, 0, None).inner_index(), None);
    assert_eq!(t, TextureIndex::new(2, 5, Some(9)));
    assert_ne!(t, TextureIndex::new(2, 5, None));
}

#[test]
fn tables() {
    assert_eq!(ROOT_TEXTURES_PATH, "./assets/textures");
    let e = npc_texture(0).unwrap();
    assert_eq!(e.kind, TextureType::Standalone);
    assert_eq!(e.file_name, "test_npc.png");
    assert!(npc_texture(1).is_none());
    let e = geometry_texture(0).unwrap();
    assert_eq!(e.kind, TextureType::Standalone);
    assert_eq!(e.file_name, "LongSongNoHeart.png");
    assert!(geometry_texture(1).is_none());
}

#[test]
fn request_of_a_character_texture() {
    let r = TextureIndex::new(1, 0, None).texture_request().unwrap();
    assert_eq!(r.path, "./assets/textures/npc/test_npc.png");
    assert_eq!(r.kind, TextureType::Standalone);
}

#[test]
fn request_of_a_map_texture() {
    let r = TextureIndex::new(2, 0, Some(3)).texture_request().unwrap();
    assert_eq!(r.path, "./assets/textures/geometry/LongSongNoHeart.png");
    assert_eq!(r.kind, TextureType::Standalone);
}

#[test]
fn request_into_a_space_without_directory() {
    let e = TextureIndex::new(3, 0, None).texture_request().unwrap_err();
    assert_eq!(e, UnknownTextureSpace { space_index: 3 });
    let e = TextureIndex::new(usize::MAX, 77, Some(1)).texture_request().unwrap_err();
    assert_eq!(e.space_index, usize::MAX);
}

#[test]
fn slot_of_an_atlas() {
    let t = TextureIndex::new(2, 0, Some(3));
    assert_eq!(t.atlas_slot(TextureType::Atlas(16)), Some(AtlasSlot { x: 48, width: 16 }));
    assert_eq!(t.atlas_slot(TextureType::Standalone), None);
    let t = TextureIndex::new(2, 0, Some(0));
    assert_eq!(t.atlas_slot(TextureType::Atlas(16)), Some(AtlasSlot { x: 0, width: 16 }));
    assert_eq!(TextureIndex::new(2, 0, None).atlas_slot(TextureType::Standalone), None);
}
