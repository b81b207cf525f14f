use bangbang::assets::{
    asset_id_variants, camel_to_snake_id, dialogue_portrait_asset_key, infer_tile_size_for_square_sheet,
    load_png_bytes, resolve_door_prop_sheet_id, resolve_map_prop_sheet_id, resolve_map_tile_size,
    loaded_sheet_tag, rgba_to_pixels, sheet_from_grid, sheet_to_rgba, single_frame_sheet, skill_image_key, snake_to_camel_id,
    tileset_sheet, AssetStore, LoadedSheet,
};

#[test]
fn whole_image_tile_size_on_square_sheet_is_ignored() {
    assert_eq!(resolve_map_tile_size(128, 128, None, Some(128)), 32);
    assert_eq!(resolve_map_tile_size(128, 128, None, Some(32)), 32);
    assert_eq!(resolve_map_tile_size(128, 128, Some(32), None), 32);
    assert_eq!(infer_tile_size_for_square_sheet(128, 128), 32);
}

#[test]
fn infer_tile_size_only_picks_32_for_a_128_square() {
    assert_eq!(infer_tile_size_for_square_sheet(64, 64), 16);
    assert_eq!(infer_tile_size_for_square_sheet(128, 64), 16);
    assert_eq!(infer_tile_size_for_square_sheet(0, 0), 16);
    assert_eq!(infer_tile_size_for_square_sheet(256, 256), 16);
}

#[test]
fn map_tile_size_wins_over_json_and_bad_sizes_are_inferred() {
    assert_eq!(resolve_map_tile_size(96, 64, Some(16), Some(32)), 16);
    assert_eq!(resolve_map_tile_size(96, 64, None, Some(32)), 32);
    // Does not divide the image: inferred.
    assert_eq!(resolve_map_tile_size(96, 64, Some(40), None), 16);
    // Zero: inferred.
    assert_eq!(resolve_map_tile_size(128, 128, Some(0), None), 32);
    // One cell covering a small square sheet is kept.
    assert_eq!(resolve_map_tile_size(32, 32, Some(32), None), 32);
}

#[test]
fn tileset_sheet_grid_from_tile_size() {
    let s = tileset_sheet(vec![0; 128 * 128], 128, 128, None, None).expect("tileset");
    assert_eq!((s.cols, s.rows, s.frame_width, s.frame_height), (4, 4, 32, 32));
    assert!(tileset_sheet(vec![0; 8], 8, 1, Some(8), None).is_none());
}

#[test]
fn sheet_grids() {
    let s = sheet_from_grid(vec![0; 64 * 96], 64, 96, 4, 2);
    assert_eq!((s.frame_width, s.frame_height, s.rows, s.cols), (32, 24, 4, 2));
    let p = single_frame_sheet(vec![1, 2, 3, 4], 2, 2).expect("portrait");
    assert_eq!((p.frame_width, p.frame_height, p.rows, p.cols), (2, 2, 1, 1));
    assert!(single_frame_sheet(Vec::new(), 0, 5).is_none());
}

#[test]
fn id_case_conversions() {
    assert_eq!(snake_to_camel_id("south_heavy"), "southHeavy");
    assert_eq!(snake_to_camel_id("billy-house stable"), "billyHouseStable");
    assert_eq!(snake_to_camel_id("__a"), "A");
    assert_eq!(camel_to_snake_id("southHeavy"), "south_heavy");
    assert_eq!(camel_to_snake_id("BillyHouse"), "billy_house");
    assert_eq!(camel_to_snake_id("plain"), "plain");
}

#[test]
fn asset_id_variants_are_unique_and_ordered() {
    assert_eq!(asset_id_variants("  southHeavy "), vec!["southHeavy", "south_heavy"]);
    assert_eq!(asset_id_variants("south_heavy"), vec!["south_heavy", "southHeavy"]);
    assert_eq!(asset_id_variants("south"), vec!["south"]);
    assert!(asset_id_variants("   ").is_empty());
}

fn folders(names: &[&str]) -> Vec<String> {
    names.iter().map(|s| s.to_string()).collect()
}

#[test]
fn door_prop_resolution_prefers_door_folders_then_legacy() {
    let f = folders(&["southHeavy.door", "south.door", "door_old"]);
    assert_eq!(resolve_door_prop_sheet_id("south_heavy", &f).as_deref(), Some("southHeavy.door"));
    assert_eq!(resolve_door_prop_sheet_id("south", &f).as_deref(), Some("south.door"));
    assert_eq!(resolve_door_prop_sheet_id("old", &f).as_deref(), Some("door_old"));
    assert_eq!(resolve_door_prop_sheet_id("missing", &f), None);
}

#[test]
fn map_prop_resolution_prefers_prop_folders_then_plain() {
    let f = folders(&["billyHouse.prop", "cactus", "barrels.prop", "barrels"]);
    assert_eq!(resolve_map_prop_sheet_id("billy_house", &f).as_deref(), Some("billyHouse.prop"));
    assert_eq!(resolve_map_prop_sheet_id("cactus", &f).as_deref(), Some("cactus"));
    assert_eq!(resolve_map_prop_sheet_id("barrels", &f).as_deref(), Some("barrels.prop"));
    assert_eq!(resolve_map_prop_sheet_id("nothing", &f), None);
}

#[test]
fn cache_keys() {
    assert_eq!(dialogue_portrait_asset_key("mom"), "mom__dialogue_portrait");
    assert_eq!(skill_image_key("beer"), "skill_icon:beer");
}

#[test]
fn pixels_from_rgba_bytes() {
    let rgba = [255u8, 0, 0, 255, 1, 2, 3, 0, 0x12, 0x34, 0x56, 7];
    assert_eq!(rgba_to_pixels(&rgba, 3), vec![0x00FF0000, 0, 0x00123456]);
    assert_eq!(rgba_to_pixels(&rgba, 1), vec![0x00FF0000]);
}

#[test]
fn png_bytes_decode_to_pixels() {
    // A 2×1 RGBA image: opaque red, then a fully transparent blue pixel.
    let png: [u8; 70] = [
        137, 80, 78, 71, 13, 10, 26, 10, 0, 0, 0, 13, 73, 72, 68, 82, 0, 0, 0, 2, 0, 0, 0, 1, 8, 6, 0,
        0, 0, 244, 34, 127, 138, 0, 0, 0, 13, 73, 68, 65, 84, 120, 156, 99, 248, 207, 192, 0, 70, 0,
        14, 250, 2, 254, 245, 30, 76, 169, 0, 0, 0, 0, 73, 69, 78, 68, 174, 66, 96, 130,
    ];
    let (pixels, w, h) = load_png_bytes(&png).expect("decodes");
    assert_eq!((w, h), (2, 1));
    assert_eq!(pixels, vec![0x00FF0000, 0]);
    assert!(load_png_bytes(&[1, 2, 3]).is_none());
}

fn sheet(w: u32) -> LoadedSheet {
    LoadedSheet { pixels: vec![0; w as usize], width: w, height: 1, frame_width: w, frame_height: 1, rows: 1, cols: 1 }
}

#[test]
fn asset_store_caches_and_remembers_missing_portraits() {
    let mut store = AssetStore::new();
    assert_eq!(store.get_sheet("player", |_: &str| Some(sheet(3))).map(|s| s.width), Some(3));
    // Cached: a second load is not attempted.
    assert_eq!(
        store.get_sheet("player", |_: &str| -> Option<LoadedSheet> { panic!("cached") }).map(|s| s.width),
        Some(3)
    );
    // A failed sheet load is tried again next time.
    assert!(store.get_sheet("ghost", |_: &str| None).is_none());
    assert_eq!(store.get_sheet("ghost", |_: &str| Some(sheet(5))).map(|s| s.width), Some(5));

    assert_eq!(store.get_skill_image("beer", |id: &str| {
        assert_eq!(id, "beer");
        Some(sheet(7))
    }).map(|s| s.width), Some(7));

    // A missing portrait is remembered and never looked for again.
    assert!(store.get_dialogue_portrait_sheet("mom", |_: &str| None).is_none());
    assert!(store
        .get_dialogue_portrait_sheet("mom", |_: &str| -> Option<LoadedSheet> { panic!("remembered miss") })
        .is_none());
    assert_eq!(store.get_dialogue_portrait_sheet("sheriff", |_: &str| Some(sheet(9))).map(|s| s.width), Some(9));
    // The portrait shares the sheet cache under its key.
    assert_eq!(
        store
            .get_sheet("sheriff__dialogue_portrait", |_: &str| -> Option<LoadedSheet> { panic!("cached") })
            .map(|s| s.width),
        Some(9)
    );
}

fn pixel_sheet(pixels: Vec<u32>, width: u32, height: u32) -> LoadedSheet {
    LoadedSheet { pixels, width, height, frame_width: width, frame_height: height, rows: 1, cols: 1 }
}

#[test]
fn sheet_bytes_and_back() {
    let s = pixel_sheet(vec![0x123456, 0, 0xff00ff], 2, 2);
    let bytes = sheet_to_rgba(&s);
    assert_eq!(
        bytes,
        vec![0x12, 0x34, 0x56, 255, 0, 0, 0, 0, 0xff, 0x00, 0xff, 255, 0, 0, 0, 0]
    );
    assert_eq!(rgba_to_pixels(&bytes, 3), vec![0x123456, 0, 0xff00ff]);
}

#[test]
fn sheet_tag_is_fnv1a_of_grid_and_pixels() {
    let a = pixel_sheet(vec![0x123456], 1, 1);
    assert_eq!(loaded_sheet_tag(&a), 2828551503820145671);
    let b = LoadedSheet { pixels: vec![5, 0], width: 2, height: 1, frame_width: 2, frame_height: 1, rows: 1, cols: 1 };
    assert_eq!(loaded_sheet_tag(&b), 5764527541953158550);
    let c = LoadedSheet { pixels: vec![5, 1], ..b.clone() };
    assert_ne!(loaded_sheet_tag(&b), loaded_sheet_tag(&c));
}

#[test]
fn south_heavy_id_resolves_to_its_door_folder() {
    let f = folders(&["billyHouse.prop", "south.door", "southHeavy.door", "cactus"]);
    assert_eq!(resolve_door_prop_sheet_id("southHeavy", &f).as_deref(), Some("southHeavy.door"));
}

#[test]
fn south_id_resolves_to_its_door_folder() {
    let f = folders(&["billyHouse.prop", "southHeavy.door", "south.door", "cactus"]);
    assert_eq!(resolve_door_prop_sheet_id("south", &f).as_deref(), Some("south.door"));
}

#[test]
fn billy_house_id_resolves_to_its_prop_folder() {
    let f = folders(&["south.door", "southHeavy.door", "billyHouse.prop", "cactus"]);
    assert_eq!(resolve_map_prop_sheet_id("billyHouse", &f).as_deref(), Some("billyHouse.prop"));
}
