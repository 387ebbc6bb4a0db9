use celeste::tileset::{
    is_valid_tileset_art_tag, next_tileset_art_tag, normalize_tileset_art_tag,
    normalize_tileset_art_tag_kind, TilesetArtTag, TILESET_ART_TAG_COUNT,
};

#[test]
fn exact_names_stand_for_themselves() {
    assert_eq!(normalize_tileset_art_tag("dirt"), Some("dirt"));
    assert_eq!(normalize_tileset_art_tag("grass"), Some("grass"));
    assert_eq!(normalize_tileset_art_tag("snow"), Some("snow"));
    assert_eq!(normalize_tileset_art_tag("templeA"), Some("templeA"));
    assert_eq!(normalize_tileset_art_tag("templeB"), Some("templeB"));
    assert_eq!(normalize_tileset_art_tag("girder"), Some("girder"));
}

#[test]
fn tags_are_trimmed_first() {
    assert_eq!(normalize_tileset_art_tag("  snow\t"), Some("snow"));
    assert_eq!(normalize_tileset_art_tag("\ngirder "), Some("girder"));
}

#[test]
fn legacy_spellings_are_recognised_by_prefix() {
    assert_eq!(normalize_tileset_art_tag("Temple_A_tiles"), Some("templeA"));
    assert_eq!(normalize_tileset_art_tag("TEMPLEB"), Some("templeB"));
    assert_eq!(normalize_tileset_art_tag("templea2"), Some("templeA"));
    assert_eq!(normalize_tileset_art_tag("Snowy"), Some("snow"));
    assert_eq!(normalize_tileset_art_tag("GrassTop"), Some("grass"));
    assert_eq!(normalize_tileset_art_tag("DIRT_old"), Some("dirt"));
    assert_eq!(normalize_tileset_art_tag("Girders"), Some("girder"));
}

#[test]
fn unknown_tags_stand_for_no_tileset() {
    assert_eq!(normalize_tileset_art_tag("stone"), None);
    assert_eq!(normalize_tileset_art_tag(""), None);
    assert_eq!(normalize_tileset_art_tag("   "), None);
    assert_eq!(normalize_tileset_art_tag("temple"), None);
    assert_eq!(normalize_tileset_art_tag("x snow"), None);
    assert!(!is_valid_tileset_art_tag("lava"));
    assert!(is_valid_tileset_art_tag(" Temple_B "));
}

#[test]
fn kind_matches_name() {
    assert_eq!(normalize_tileset_art_tag_kind("templeA"), Some(TilesetArtTag::TempleA));
    assert_eq!(TilesetArtTag::TempleA.as_str(), "templeA");
    assert_eq!(TilesetArtTag::Girder.index(), 5);
    assert_eq!(TilesetArtTag::at(2), TilesetArtTag::Snow);
    assert_eq!(TILESET_ART_TAG_COUNT, 6);
}

#[test]
fn normalizing_twice_changes_nothing() {
    for tag in ["  snowy", "TEMPLE_A", "dirt", "Grass2", "girder "] {
        let once = normalize_tileset_art_tag(tag).unwrap();
        assert_eq!(normalize_tileset_art_tag(once), Some(once));
    }
}

#[test]
fn tileset_key_cycles_through_all_tilesets() {
    assert_eq!(next_tileset_art_tag("dirt"), "grass");
    assert_eq!(next_tileset_art_tag("grass"), "snow");
    assert_eq!(next_tileset_art_tag("snow"), "templeA");
    assert_eq!(next_tileset_art_tag("templeA"), "templeB");
    assert_eq!(next_tileset_art_tag("templeB"), "girder");
    assert_eq!(next_tileset_art_tag("girder"), "dirt");
    let mut tag = "snow";
    for step in 1..=6 {
        tag = next_tileset_art_tag(tag);
        if step < 6 {
            assert_ne!(tag, "snow");
        }
    }
    assert_eq!(tag, "snow");
}

#[test]
fn tileset_key_from_unknown_or_legacy_tag() {
    assert_eq!(next_tileset_art_tag("lava"), "grass");
    assert_eq!(next_tileset_art_tag(""), "grass");
    assert_eq!(next_tileset_art_tag("temple_b"), "girder");
}
