use bangbang::map::{parse_tile_id, TilePalette, Tilemap, TilesetDraw};
use bangbang::map_loader::{tiles_row_major, SparseRect, SparseTilesJson, TilesJson};
use bangbang::render::{
    cell_sheet_tile_index, facing_sprite_row, hp_bar_values, sprite_frame, tilemap_is_binary_collision_only,
    wang_wall_sheet_index,
};
use bangbang::ecs::components::{AnimationKind, Direction, Health};

fn tiny_map(tiles: Vec<u32>, palette: TilePalette) -> Tilemap {
    let w = 3u32;
    Tilemap { width: w, height: 1, tiles, tileset_draw: None, tile_palette: palette }
}

fn palette_0_1() -> TilePalette {
    let mut p = TilePalette::new();
    p.insert(0, true);
    p.insert(1, false);
    p
}

#[test]
fn is_blocking_from_palette_only() {
    let m = tiny_map(vec![0, 1, 2], palette_0_1());
    assert!(!m.is_blocking(0, 0));
    assert!(m.is_blocking(1, 0));
    assert!(m.is_blocking(2, 0));
}

#[test]
fn is_blocking_respects_walkable_flag() {
    let mut p = TilePalette::new();
    p.insert(2, true);
    let m = tiny_map(vec![2], p);
    assert!(!m.is_blocking(0, 0));
}

#[test]
fn out_of_bounds_blocks_and_has_no_tile() {
    let m = tiny_map(vec![0, 0, 0], TilePalette::loader_fallback());
    assert_eq!(m.index(2, 0), Some(2));
    assert_eq!(m.index(3, 0), None);
    assert_eq!(m.tile_at(0, 1), None);
    assert!(m.is_blocking(3, 0));
    assert!(m.is_blocking(0, 1));
    assert!(!m.is_blocking(1, 0));
}

#[test]
fn sparse_tile_loading_generates_correct_grid() {
    let sparse = SparseTilesJson {
        fill: 0,
        perimeter: Some(1),
        rects: vec![SparseRect { id: 2, x: 1, y: 1, w: 2, h: 2 }],
    };
    let tiles = TilesJson::Sparse(sparse);
    let grid = tiles_row_major(4, 4, tiles).expect("sparse conversion works");
    // Row 0: Perimeter
    assert_eq!(&grid[0..4], &[1, 1, 1, 1]);
    // Row 1: Wall, Rect(2, 2), Wall
    assert_eq!(&grid[4..8], &[1, 2, 2, 1]);
    // Row 2: Wall, Rect(2, 2), Wall
    assert_eq!(&grid[8..12], &[1, 2, 2, 1]);
    // Row 3: Perimeter
    assert_eq!(&grid[12..16], &[1, 1, 1, 1]);
}

#[test]
fn sparse_rects_paint_in_order_and_clip() {
    let sparse = SparseTilesJson {
        fill: 7,
        perimeter: None,
        rects: vec![
            SparseRect { id: 3, x: 0, y: 0, w: 10, h: 10 },
            SparseRect { id: 4, x: 2, y: 1, w: 5, h: 1 },
        ],
    };
    let grid = tiles_row_major(3, 2, TilesJson::Sparse(sparse)).unwrap();
    assert_eq!(grid, vec![3, 3, 3, 3, 3, 4]);
}

#[test]
fn flat_and_matrix_tiles() {
    assert_eq!(tiles_row_major(2, 2, TilesJson::Flat(vec![1, 2, 3, 4])), Some(vec![1, 2, 3, 4]));
    assert_eq!(tiles_row_major(2, 2, TilesJson::Flat(vec![1, 2, 3])), None);
    assert_eq!(
        tiles_row_major(2, 2, TilesJson::Matrix(vec![vec![1, 2], vec![3, 4]])),
        Some(vec![1, 2, 3, 4])
    );
    assert_eq!(tiles_row_major(2, 2, TilesJson::Matrix(vec![vec![1, 2], vec![3]])), None);
    assert_eq!(tiles_row_major(2, 2, TilesJson::Matrix(vec![vec![1, 2]])), None);
}

#[test]
fn binary_collision_grids() {
    let m = tiny_map(vec![0, 1, 1], palette_0_1());
    assert!(tilemap_is_binary_collision_only(&m));
    let m = tiny_map(vec![0, 2, 1], palette_0_1());
    assert!(!tilemap_is_binary_collision_only(&m));
}

#[test]
fn facing_rows() {
    assert_eq!(facing_sprite_row(Direction::Down), 0);
    assert_eq!(facing_sprite_row(Direction::Up), 1);
    assert_eq!(facing_sprite_row(Direction::Left), 2);
    assert_eq!(facing_sprite_row(Direction::Right), 3);
}

#[test]
fn wang_index_from_neighbours() {
    // 3×3 map: a wall in the middle of open floor.
    let m = Tilemap {
        width: 3,
        height: 3,
        tiles: vec![0, 0, 0, 0, 1, 0, 0, 0, 0],
        tileset_draw: Some(TilesetDraw { floor: 6, wall: 0, wang_autotile: true }),
        tile_palette: palette_0_1(),
    };
    // No edge neighbour blocks and no corner neighbour either: signature 0 → sheet index 6.
    assert_eq!(wang_wall_sheet_index(&m, 1, 1), 6);
    // A corner cell: the outside counts as wall on the north and west.
    let all_wall = Tilemap {
        width: 2,
        height: 2,
        tiles: vec![1, 1, 1, 1],
        tileset_draw: None,
        tile_palette: palette_0_1(),
    };
    // Every neighbour blocks: signature 15 → sheet index 12.
    assert_eq!(wang_wall_sheet_index(&all_wall, 0, 0), 12);
}

#[test]
fn cell_tiles_follow_tileset_draw() {
    let mut m = Tilemap {
        width: 3,
        height: 1,
        tiles: vec![0, 1, 0],
        tileset_draw: Some(TilesetDraw { floor: 6, wall: 9, wang_autotile: false }),
        tile_palette: palette_0_1(),
    };
    let binary = tilemap_is_binary_collision_only(&m);
    assert!(binary);
    assert_eq!(cell_sheet_tile_index(&m, 0, 0, 16, binary), Some(6));
    assert_eq!(cell_sheet_tile_index(&m, 1, 0, 16, binary), Some(9));
    // Capped at the sheet's last tile; an empty sheet caps at 0.
    assert_eq!(cell_sheet_tile_index(&m, 1, 0, 4, binary), Some(3));
    assert_eq!(cell_sheet_tile_index(&m, 1, 0, 0, binary), Some(0));
    // Outside the grid reads as the floor id.
    assert_eq!(cell_sheet_tile_index(&m, 5, 0, 16, binary), Some(6));
    // Wang autotiling for walls.
    m.tileset_draw = Some(TilesetDraw { floor: 6, wall: 9, wang_autotile: true });
    assert_eq!(cell_sheet_tile_index(&m, 1, 0, 16, binary), Some(wang_wall_sheet_index(&m, 1, 0)));
    // Without a mapping a bare collision grid is solid colour, other grids index directly.
    m.tileset_draw = None;
    assert_eq!(cell_sheet_tile_index(&m, 1, 0, 16, binary), None);
    let m2 = tiny_map(vec![0, 5, 20], palette_0_1());
    let b2 = tilemap_is_binary_collision_only(&m2);
    assert!(!b2);
    assert_eq!(cell_sheet_tile_index(&m2, 1, 0, 16, b2), Some(5));
    assert_eq!(cell_sheet_tile_index(&m2, 2, 0, 16, b2), Some(15));
}

#[test]
fn sprite_frames_pick_row_and_walk_column() {
    assert_eq!(sprite_frame(2, 4, Some(Direction::Left), AnimationKind::Idle, 7), (0, 2));
    assert_eq!(sprite_frame(2, 4, None, AnimationKind::Walk, 7), (1, 0));
    assert_eq!(sprite_frame(4, 4, Some(Direction::Right), AnimationKind::Walk, 0), (1, 3));
    assert_eq!(sprite_frame(4, 4, Some(Direction::Right), AnimationKind::Walk, 4), (2, 3));
    assert_eq!(sprite_frame(4, 2, Some(Direction::Right), AnimationKind::Walk, 5), (3, 1));
    // A one-column sheet: the walk column is capped at column 0.
    assert_eq!(sprite_frame(1, 1, Some(Direction::Up), AnimationKind::Walk, 3), (0, 0));
}

#[test]
fn hp_bar_shows_clamped_points() {
    assert_eq!(hp_bar_values(Health { current: 3, max: 5 }), Some((3, 5)));
    assert_eq!(hp_bar_values(Health { current: -2, max: 5 }), Some((0, 5)));
    assert_eq!(hp_bar_values(Health { current: 9, max: 5 }), Some((5, 5)));
    assert_eq!(hp_bar_values(Health { current: 3, max: 0 }), None);
}

#[test]
fn palette_keys_read_as_tile_ids() {
    assert_eq!(parse_tile_id("0"), Some(0));
    assert_eq!(parse_tile_id("42"), Some(42));
    assert_eq!(parse_tile_id("+7"), Some(7));
    assert_eq!(parse_tile_id("007"), Some(7));
    assert_eq!(parse_tile_id("4294967295"), Some(u32::MAX));
    for bad in ["", "+", "-1", "4294967296", "12a", " 1", "x"] {
        assert_eq!(parse_tile_id(bad), None, "{bad:?}");
        assert!(bad.parse::<u32>().is_err());
    }
}
