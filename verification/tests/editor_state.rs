use celeste::editor::{
    editor_active, editor_inactive, pick_object, shortcut_tool, EditError, EditorSelection,
    EditorState, EditorTool, ExitEditOutcome, ExitShortcuts, PickHits, SpringEditOutcome,
    TilesetKeyOutcome, ToolKeys,
};
use celeste::geometry::{Coord, Point};
use celeste::level::{
    CollisionKind, CollisionRect, ExitSide, MapFile, NamedPoint, RectData, RoomData, RoomExitData,
    SpringData, SpringDirection,
};
use celeste::validation::MapValidationError;

fn c(v: f32) -> Coord {
    Coord { bits: v.to_bits() }
}

fn rect() -> RectData {
    RectData { x: c(0.0), y: c(0.0), w: c(8.0), h: c(8.0) }
}

fn collision(kind: CollisionKind, tag: &str) -> CollisionRect {
    CollisionRect { kind, x: c(0.0), y: c(0.0), w: c(8.0), h: c(8.0), art_tag: Some(tag.to_string()) }
}

fn map() -> MapFile {
    let room = RoomData {
        id: "r".to_string(),
        bounds: RectData { x: c(0.0), y: c(0.0), w: c(320.0), h: c(180.0) },
        default_spawn: "s".to_string(),
        spawn_points: vec![
            NamedPoint { id: "s".to_string(), x: c(0.0), y: c(0.0) },
            NamedPoint { id: "t".to_string(), x: c(1.0), y: c(1.0) },
        ],
        collision: vec![
            collision(CollisionKind::SolidGround, "dirt"),
            collision(CollisionKind::CameraZone, "dirt"),
            collision(CollisionKind::WallSurface, "grass"),
        ],
        hazards: vec![rect(), rect()],
        checkpoints: Vec::new(),
        dashcrystals: Vec::new(),
        springs: Vec::new(),
        exits: Vec::new(),
        completion_zones: Vec::new(),
        grasses: Vec::new(),
    };
    MapFile { id: "m".to_string(), start_room: "r".to_string(), rooms: vec![room] }
}

fn no_hits() -> PickHits {
    PickHits {
        exits: Vec::new(),
        completion_zones: Vec::new(),
        hazards: Vec::new(),
        grasses: Vec::new(),
        collisions: Vec::new(),
        springs: Vec::new(),
        dashcrystals: Vec::new(),
        checkpoints: Vec::new(),
        spawn_points: Vec::new(),
    }
}

fn no_keys() -> ToolKeys {
    ToolKeys {
        select: false,
        solid_ground: false,
        hazard: false,
        checkpoint: false,
        spawn_point: false,
        dash_crystal: false,
        exit: false,
        completion_zone: false,
        spring: false,
        grass: false,
    }
}

#[test]
fn new_editor_state() {
    let e = EditorState::new();
    assert!(!e.enabled);
    assert_eq!(e.tool, EditorTool::Select);
    assert!(e.selected.is_none());
    assert!(e.move_drag.is_none());
    assert!(e.drag_start.is_none());
    assert!(e.preview_end.is_none());
    assert_eq!(e.next_id, 1);
    assert!(!e.dirty);
    assert_eq!(e.last_status, "F1: toggle editor");
    assert_eq!(e.current_tileset, "dirt");
    let d = EditorState::default();
    assert!(!d.enabled && d.next_id == 1 && d.current_tileset == "dirt");
}

#[test]
fn toggling_and_tools() {
    let mut e = EditorState::new();
    assert!(editor_inactive(Some(&e)));
    assert!(editor_inactive(None));
    assert!(!editor_active(None));
    e.toggle();
    assert!(editor_active(Some(&e)));
    e.selected = Some(EditorSelection::Hazard(0));
    e.choose_tool(EditorTool::Hazard);
    assert_eq!(e.tool, EditorTool::Hazard);
    assert!(e.selected.is_none());
    e.toggle();
    assert!(!e.enabled);
    assert_eq!(e.tool, EditorTool::Hazard);
}

#[test]
fn tool_keys() {
    assert_eq!(shortcut_tool(no_keys()), None);
    assert_eq!(shortcut_tool(ToolKeys { spring: true, ..no_keys() }), Some(EditorTool::Spring));
    assert_eq!(shortcut_tool(ToolKeys { grass: true, ..no_keys() }), Some(EditorTool::Grass));
    assert_eq!(
        shortcut_tool(ToolKeys { hazard: true, exit: true, ..no_keys() }),
        Some(EditorTool::Hazard)
    );
    assert_eq!(shortcut_tool(ToolKeys { select: true, grass: true, ..no_keys() }), Some(EditorTool::Select));
}

#[test]
fn tileset_key_retints_the_selected_collision() {
    let mut m = map();
    let mut e = EditorState::new();
    assert_eq!(e.cycle_tileset(&mut m, "r"), TilesetKeyOutcome::CurrentOnly);
    assert_eq!(e.current_tileset, "grass");
    assert!(!e.dirty);
    e.selected = Some(EditorSelection::Collision(2));
    assert_eq!(e.cycle_tileset(&mut m, "r"), TilesetKeyOutcome::AppliedToCollision { collision: 2 });
    assert_eq!(e.current_tileset, "snow");
    assert_eq!(m.rooms[0].collision[2].art_tag.as_deref(), Some("snow"));
    assert!(e.dirty);
    e.selected = Some(EditorSelection::Collision(9));
    assert_eq!(e.cycle_tileset(&mut m, "r"), TilesetKeyOutcome::MissingCollision { collision: 9 });
    e.choose_tool(EditorTool::SolidGround);
    e.selected = Some(EditorSelection::Collision(0));
    assert_eq!(e.cycle_tileset(&mut m, "r"), TilesetKeyOutcome::CurrentOnly);
    assert_eq!(m.rooms[0].collision[0].art_tag.as_deref(), Some("dirt"));
}

#[test]
fn delete_key() {
    let mut m = map();
    let mut e = EditorState::new();
    assert_eq!(e.delete_selected(&mut m, "r"), None);
    e.selected = Some(EditorSelection::Hazard(1));
    assert_eq!(e.delete_selected(&mut m, "r"), Some((EditorSelection::Hazard(1), Ok(()))));
    assert!(e.selected.is_none());
    assert!(e.dirty);
    assert_eq!(m.rooms[0].hazards.len(), 1);
    let mut e = EditorState::new();
    e.selected = Some(EditorSelection::SpawnPoint(0));
    assert_eq!(
        e.delete_selected(&mut m, "r"),
        Some((EditorSelection::SpawnPoint(0), Err(EditError::DefaultSpawn)))
    );
    assert!(!e.dirty);
    assert!(e.selected.is_none());
}

#[test]
fn picking_prefers_later_objects_and_earlier_lists() {
    let m = map();
    assert_eq!(pick_object(&m, "r", &no_hits()), None);
    let hits = PickHits { hazards: vec![true, true], spawn_points: vec![true], ..no_hits() };
    assert_eq!(pick_object(&m, "r", &hits), Some(EditorSelection::Hazard(1)));
    let hits = PickHits { collisions: vec![true, true, false], spawn_points: vec![false, true], ..no_hits() };
    assert_eq!(pick_object(&m, "r", &hits), Some(EditorSelection::Collision(0)));
    let hits = PickHits { collisions: vec![false, true], spawn_points: vec![true, true], ..no_hits() };
    assert_eq!(pick_object(&m, "r", &hits), Some(EditorSelection::SpawnPoint(1)));
    let hits = PickHits { hazards: vec![false, false, true], ..no_hits() };
    assert_eq!(pick_object(&m, "r", &hits), None);
    let hits = PickHits { hazards: vec![true], ..no_hits() };
    assert_eq!(pick_object(&m, "elsewhere", &hits), None);
}

fn pt(x: f32, y: f32) -> Point {
    Point { x: c(x), y: c(y) }
}

#[test]
fn clicking_places_points_and_springs_with_fresh_ids() {
    let mut m = map();
    let mut e = EditorState::new();
    e.next_id = 7;
    assert!(!e.place_point(&mut m, "r", pt(1.0, 2.0)));
    e.choose_tool(EditorTool::Checkpoint);
    assert!(e.place_point(&mut m, "r", pt(1.0, 2.0)));
    assert_eq!(m.rooms[0].checkpoints[0].id, "editor_7");
    assert_eq!((m.rooms[0].checkpoints[0].x, m.rooms[0].checkpoints[0].y), (c(1.0), c(2.0)));
    assert_eq!(e.next_id, 8);
    assert!(e.dirty);
    assert!(!e.place_point(&mut m, "missing", pt(1.0, 2.0)));
    assert_eq!(e.next_id, 8);
    assert!(!e.place_spring(&mut m, "r", pt(0.0, 3.0)));
    e.choose_tool(EditorTool::Spring);
    assert!(e.place_spring(&mut m, "r", pt(0.0, 3.0)));
    assert_eq!(m.rooms[0].springs[0].id, "editor_spring_8");
    assert_eq!(m.rooms[0].springs[0].direction, SpringDirection::Up);
    assert_eq!(e.next_id, 9);
}

#[test]
fn finishing_a_rectangle() {
    let mut m = map();
    let mut e = EditorState::new();
    e.choose_tool(EditorTool::Exit);
    assert!(e.finish_rect(&mut m, "r", rect()));
    assert_eq!(m.rooms[0].exits[0].id, "editor_exit_1");
    assert_eq!(e.next_id, 2);
    e.choose_tool(EditorTool::SolidGround);
    e.current_tileset = "girder".to_string();
    assert!(e.finish_rect(&mut m, "r", rect()));
    assert_eq!(m.rooms[0].collision[3].art_tag.as_deref(), Some("girder"));
    e.choose_tool(EditorTool::Checkpoint);
    assert!(!e.finish_rect(&mut m, "r", rect()));
    assert_eq!(e.next_id, 3);
}

#[test]
fn selecting_and_dragging() {
    let mut m = map();
    let mut e = EditorState::new();
    e.toggle();
    let on_hazard = PickHits { hazards: vec![false, true], ..no_hits() };
    assert_eq!(e.click_select(&m, "r", &on_hazard), Some(EditorSelection::Hazard(1)));
    assert_eq!(e.selected, Some(EditorSelection::Hazard(1)));
    assert!(!e.begin_move(&m, "r", &no_hits(), pt(0.0, 0.0)));
    assert!(e.move_drag.is_none());
    assert!(e.begin_move(&m, "r", &on_hazard, pt(4.0, 4.0)));
    let drag = e.move_drag.unwrap();
    assert_eq!(drag.selection, EditorSelection::Hazard(1));
    assert_eq!(drag.start_mouse, pt(4.0, 4.0));
    assert_eq!(drag.original_position, pt(0.0, 0.0));
    assert!(!drag.moved);
    assert_eq!(e.drag_to(&mut m, "r", pt(16.0, 8.0), |p: Point, _d| p), Some(Ok(())));
    assert_eq!((m.rooms[0].hazards[1].x, m.rooms[0].hazards[1].y), (c(16.0), c(8.0)));
    assert!(e.move_drag.unwrap().moved);
    assert!(e.dirty);
    assert_eq!(e.end_move(), Some(EditorSelection::Hazard(1)));
    assert!(e.move_drag.is_none());
    assert_eq!(e.end_move(), None);
    assert_eq!(e.drag_to(&mut m, "r", pt(1.0, 1.0), |p: Point, _d| p), None);
}

#[test]
fn a_refused_drag_ends_the_move() {
    let mut m = map();
    let mut e = EditorState::new();
    e.selected = Some(EditorSelection::Hazard(0));
    assert!(e.begin_move(&m, "r", &PickHits { hazards: vec![true], ..no_hits() }, pt(0.0, 0.0)));
    m.rooms[0].hazards.clear();
    assert_eq!(
        e.drag_to(&mut m, "r", pt(8.0, 8.0), |p: Point, _d| p),
        Some(Err(EditError::MissingObject))
    );
    assert!(e.move_drag.is_none());
    assert!(!e.dirty);
}

#[test]
fn exit_and_spring_keys_need_a_matching_selection() {
    let mut m = map();
    m.rooms[0].exits.push(RoomExitData {
        id: "e".to_string(),
        side: ExitSide::Left,
        target_room: "r".to_string(),
        target_spawn: "s".to_string(),
        x: c(0.0),
        y: c(0.0),
        w: c(8.0),
        h: c(8.0),
        preserve_momentum: false,
    });
    m.rooms[0].springs.push(SpringData { id: "sp".to_string(), x: c(0.0), y: c(0.0), direction: SpringDirection::Down });
    let keys = ExitShortcuts {
        cycle_room: false,
        previous_spawn: false,
        next_spawn: true,
        previous_side: false,
        next_side: false,
        toggle_momentum: false,
    };
    let mut e = EditorState::new();
    assert_eq!(e.apply_exit_shortcuts(&mut m, "r", keys), None);
    e.selected = Some(EditorSelection::Exit(0));
    assert_eq!(
        e.apply_exit_shortcuts(&mut m, "r", keys),
        Some(ExitEditOutcome::Changed { target_room_missing: false })
    );
    assert_eq!(m.rooms[0].exits[0].target_spawn, "t");
    assert!(e.dirty);
    let keep = |p: Point, _d: SpringDirection| p;
    assert_eq!(e.apply_spring_shortcuts(&mut m, "r", false, true, keep), None);
    e.selected = Some(EditorSelection::Spring(0));
    assert_eq!(e.apply_spring_shortcuts(&mut m, "r", false, false, keep), Some(SpringEditOutcome::NoShortcut));
    assert_eq!(e.apply_spring_shortcuts(&mut m, "r", false, true, keep), Some(SpringEditOutcome::Turned));
    assert_eq!(m.rooms[0].springs[0].direction, SpringDirection::Left);
}

#[test]
fn preparing_a_save() {
    let mut m = map();
    m.rooms[0].collision[0].art_tag = Some("Temple_B".to_string());
    let mut e = EditorState::new();
    assert_eq!(e.prepare_save(&mut m), (1, Ok(())));
    assert_eq!(m.rooms[0].collision[0].art_tag.as_deref(), Some("templeB"));
    assert!(e.dirty);
    let mut e = EditorState::new();
    assert_eq!(e.prepare_save(&mut m), (0, Ok(())));
    assert!(!e.dirty);
    m.rooms[0].default_spawn = "nowhere".to_string();
    assert_eq!(e.prepare_save(&mut m), (0, Err(MapValidationError::MissingDefaultSpawn { room: 0 })));
}
