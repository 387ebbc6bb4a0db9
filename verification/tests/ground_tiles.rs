use celeste::level::CollisionKind;
use celeste::tiles::{
    choose_dirt_tile, collect_solid_cells, detect_hazard_direction, ground_tiles,
    tile_exposure_mask, GridBounds, GridRect, GroundTile, HazardDirection, SolidCells,
    GROUND_TILE_COLUMNS, GROUND_TILE_ROWS,
};

fn gb(min_x: i32, max_x: i32, min_y: i32, max_y: i32) -> GridBounds {
    GridBounds { min_x, max_x, min_y, max_y }
}

#[test]
fn solid_cells_remember_what_was_inserted() {
    let mut cells = SolidCells::new();
    assert!(!cells.contains(0, 0));
    cells.insert(3, -4);
    cells.insert(-2147483648, 2147483647);
    assert!(cells.contains(3, -4));
    assert!(!cells.contains(-4, 3));
    assert!(cells.contains(-2147483648, 2147483647));
    assert!(!cells.contains(0, 0));
}

#[test]
fn only_solid_kinds_fill_cells() {
    let rects = vec![
        GridRect { kind: CollisionKind::SolidGround, bounds: gb(0, 1, 0, 0) },
        GridRect { kind: CollisionKind::CameraZone, bounds: gb(5, 6, 5, 6) },
        GridRect { kind: CollisionKind::OneWayPlatform, bounds: gb(10, 10, -1, 1) },
        GridRect { kind: CollisionKind::EffectZone, bounds: gb(20, 20, 20, 20) },
        GridRect { kind: CollisionKind::WallSurface, bounds: gb(3, 2, 0, 0) },
    ];
    let cells = collect_solid_cells(&rects);
    assert!(cells.contains(0, 0) && cells.contains(1, 0));
    assert!(!cells.contains(2, 0) && !cells.contains(3, 0));
    assert!(!cells.contains(5, 5));
    assert!(cells.contains(10, -1) && cells.contains(10, 0) && cells.contains(10, 1));
    assert!(!cells.contains(20, 20));
}

#[test]
fn exposure_masks() {
    let mut cells = SolidCells::new();
    cells.insert(0, 0);
    assert_eq!(tile_exposure_mask(0, 0, &cells), 15);
    cells.insert(0, 1);
    assert_eq!(tile_exposure_mask(0, 0, &cells), 14);
    cells.insert(0, -1);
    cells.insert(-1, 0);
    assert_eq!(tile_exposure_mask(0, 0, &cells), 8);
    cells.insert(1, 0);
    assert_eq!(tile_exposure_mask(0, 0, &cells), 0);
}

#[test]
fn dirt_tiles_by_mask_and_seed() {
    assert_eq!(choose_dirt_tile(0, 7, 9), 5);
    assert_eq!(choose_dirt_tile(1, 123, -5), 3);
    assert_eq!(choose_dirt_tile(3, 0, 0), 3);
    assert_eq!(choose_dirt_tile(3, 1, 0), 6);
    assert_eq!(choose_dirt_tile(7, 0, 0), 24);
    assert_eq!(choose_dirt_tile(11, 1, 0), 55);
    assert_eq!(choose_dirt_tile(9, 2, 3), 75);
    assert_eq!(choose_dirt_tile(5, 5, 7), 68);
    assert_eq!(choose_dirt_tile(14, -1, -1), 45);
}

#[test]
fn dirt_tiles_stay_inside_the_atlas() {
    for mask in 0u8..=255 {
        for (x, y) in [(0, 0), (1, 0), (-7, 3), (i32::MAX, i32::MIN), (1000, -1000)] {
            assert!(choose_dirt_tile(mask, x, y) < GROUND_TILE_COLUMNS * GROUND_TILE_ROWS);
        }
    }
}

#[test]
fn ground_tiles_column_by_column() {
    let rects = vec![GridRect { kind: CollisionKind::SolidGround, bounds: gb(0, 1, 0, 0) }];
    let cells = collect_solid_cells(&rects);
    assert_eq!(
        ground_tiles(gb(0, 1, 0, 0), &cells),
        vec![GroundTile { gx: 0, gy: 0, atlas_index: 24 }, GroundTile { gx: 1, gy: 0, atlas_index: 55 }]
    );
    assert_eq!(ground_tiles(gb(5, 6, 5, 6), &cells), Vec::new());
    assert_eq!(ground_tiles(gb(1, 0, 0, 0), &cells), Vec::new());
}

#[test]
fn ground_tiles_bottom_up_within_a_column() {
    let rects = vec![GridRect { kind: CollisionKind::WallSurface, bounds: gb(0, 0, 0, 1) }];
    let cells = collect_solid_cells(&rects);
    let tiles = ground_tiles(gb(0, 0, -3, 3), &cells);
    assert_eq!(tiles.len(), 2);
    assert_eq!((tiles[0].gx, tiles[0].gy), (0, 0));
    assert_eq!((tiles[1].gx, tiles[1].gy), (0, 1));
    assert_eq!(tiles[0].atlas_index, choose_dirt_tile(14, 0, 0));
    assert_eq!(tiles[1].atlas_index, choose_dirt_tile(13, 0, 1));
}

#[test]
fn hazards_point_away_from_what_they_rest_on() {
    let hazard = gb(0, 1, 0, 0);
    let mut floor = SolidCells::new();
    floor.insert(0, -1);
    floor.insert(1, -1);
    assert_eq!(detect_hazard_direction(hazard, true, &floor), HazardDirection::Up);
    let mut ceiling = SolidCells::new();
    ceiling.insert(0, 1);
    assert_eq!(detect_hazard_direction(hazard, true, &ceiling), HazardDirection::Down);
    let mut left_wall = SolidCells::new();
    left_wall.insert(-1, 0);
    assert_eq!(detect_hazard_direction(hazard, false, &left_wall), HazardDirection::Right);
    let mut right_wall = SolidCells::new();
    right_wall.insert(2, 0);
    assert_eq!(detect_hazard_direction(hazard, false, &right_wall), HazardDirection::Left);
}

#[test]
fn hazard_ties_go_to_the_last_listed_direction() {
    let empty = SolidCells::new();
    assert_eq!(detect_hazard_direction(gb(0, 3, 0, 0), true, &empty), HazardDirection::Right);
    assert_eq!(detect_hazard_direction(gb(0, 0, 0, 3), false, &empty), HazardDirection::Down);
    let mut both = SolidCells::new();
    both.insert(0, -1);
    both.insert(-1, 0);
    assert_eq!(detect_hazard_direction(gb(0, 0, 0, 0), true, &both), HazardDirection::Right);
    assert_eq!(detect_hazard_direction(gb(0, 0, 0, 0), false, &both), HazardDirection::Up);
}
