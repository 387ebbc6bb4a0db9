use celeste::editor::{
    add_point_object, add_rect_object, add_spring_object, cycle_exit_side, cycle_spawn_choice,
    delete_selection, edit_selected_exit, move_selection_to, normalize_map_tileset_art_tags,
    preferred_spawn_for_room, previous_spring_direction, room_index, selection_position,
    set_collision_tileset, turn_selected_spring, EditError, EditorSelection, EditorTool,
    ExitEditOutcome, ExitShortcuts, SpringEditOutcome,
};
use celeste::geometry::{Coord, Point};
use celeste::level::{
    CollisionKind, CollisionRect, ExitSide, MapFile, NamedPoint, RectData, RoomData, RoomExitData,
    SpringData, SpringDirection,
};
use celeste::validation::validate_map_for_save;

fn c(v: f32) -> Coord {
    Coord { bits: v.to_bits() }
}

fn pt(x: f32, y: f32) -> Point {
    Point { x: c(x), y: c(y) }
}

fn named(id: &str, x: f32, y: f32) -> NamedPoint {
    NamedPoint { id: id.to_string(), x: c(x), y: c(y) }
}

fn rect(x: f32, y: f32, w: f32, h: f32) -> RectData {
    RectData { x: c(x), y: c(y), w: c(w), h: c(h) }
}

fn room(id: &str, spawns: &[&str]) -> RoomData {
    RoomData {
        id: id.to_string(),
        bounds: rect(0.0, 0.0, 320.0, 180.0),
        default_spawn: spawns.first().unwrap_or(&"start").to_string(),
        spawn_points: spawns.iter().map(|s| named(s, 0.0, 0.0)).collect(),
        collision: Vec::new(),
        hazards: Vec::new(),
        checkpoints: Vec::new(),
        dashcrystals: Vec::new(),
        springs: Vec::new(),
        exits: Vec::new(),
        completion_zones: Vec::new(),
        grasses: Vec::new(),
    }
}

fn exit(id: &str, target_room: &str, target_spawn: &str) -> RoomExitData {
    RoomExitData {
        id: id.to_string(),
        side: ExitSide::Left,
        target_room: target_room.to_string(),
        target_spawn: target_spawn.to_string(),
        x: c(5.0),
        y: c(6.0),
        w: c(8.0),
        h: c(16.0),
        preserve_momentum: false,
    }
}

fn spring(id: &str, direction: SpringDirection) -> SpringData {
    SpringData { id: id.to_string(), x: c(40.0), y: c(50.0), direction }
}

fn map() -> MapFile {
    let mut a = room("a", &["start", "mid"]);
    a.exits.push(exit("to_b", "b", "left"));
    let mut b = room("b", &["left", "right", "top"]);
    b.exits.push(exit("to_a", "a", "start"));
    let c3 = room("c", &["start"]);
    MapFile { id: "m".to_string(), start_room: "a".to_string(), rooms: vec![a, b, c3] }
}

fn no_keys() -> ExitShortcuts {
    ExitShortcuts {
        cycle_room: false,
        previous_spawn: false,
        next_spawn: false,
        previous_side: false,
        next_side: false,
        toggle_momentum: false,
    }
}

#[test]
fn rect_tools_add_to_their_lists() {
    let mut m = map();
    assert!(add_rect_object(&mut m, "a", EditorTool::SolidGround, rect(1.0, 2.0, 3.0, 4.0), 9, "snow"));
    let col = &m.rooms[0].collision[0];
    assert_eq!(col.kind, CollisionKind::SolidGround);
    assert_eq!(col.art_tag.as_deref(), Some("snow"));
    assert_eq!((col.x, col.y, col.w, col.h), (c(1.0), c(2.0), c(3.0), c(4.0)));
    assert!(add_rect_object(&mut m, "a", EditorTool::Hazard, rect(1.0, 1.0, 1.0, 1.0), 9, "dirt"));
    assert!(add_rect_object(&mut m, "a", EditorTool::CompletionZone, rect(1.0, 1.0, 1.0, 1.0), 9, "dirt"));
    assert!(add_rect_object(&mut m, "a", EditorTool::Grass, rect(1.0, 1.0, 1.0, 1.0), 9, "dirt"));
    assert_eq!(m.rooms[0].hazards.len(), 1);
    assert_eq!(m.rooms[0].completion_zones.len(), 1);
    assert_eq!(m.rooms[0].grasses.len(), 1);
}

#[test]
fn exit_tool_leads_back_to_the_room() {
    let mut m = map();
    assert!(add_rect_object(&mut m, "b", EditorTool::Exit, rect(1.0, 2.0, 3.0, 4.0), 42, "dirt"));
    let e = m.rooms[1].exits.last().unwrap();
    assert_eq!(e.id, "editor_exit_42");
    assert_eq!(e.target_room, "b");
    assert_eq!(e.target_spawn, "left");
    assert_eq!(e.side, ExitSide::Right);
    assert!(!e.preserve_momentum);
    assert_eq!(validate_map_for_save(&m), Ok(()));
}

#[test]
fn rect_tools_refuse_missing_rooms_and_other_tools() {
    let mut m = map();
    assert!(!add_rect_object(&mut m, "zz", EditorTool::Hazard, rect(1.0, 1.0, 1.0, 1.0), 1, "dirt"));
    assert!(!add_rect_object(&mut m, "a", EditorTool::Select, rect(1.0, 1.0, 1.0, 1.0), 1, "dirt"));
    assert!(!add_rect_object(&mut m, "a", EditorTool::Checkpoint, rect(1.0, 1.0, 1.0, 1.0), 1, "dirt"));
    assert!(m.rooms[0].hazards.is_empty());
    assert!(EditorTool::Grass.is_rect_tool());
    assert!(!EditorTool::Spring.is_rect_tool());
}

#[test]
fn point_and_spring_tools() {
    let mut m = map();
    assert!(add_point_object(&mut m, "a", EditorTool::Checkpoint, named("cp", 1.0, 1.0)));
    assert!(add_point_object(&mut m, "a", EditorTool::SpawnPoint, named("new", 2.0, 2.0)));
    assert!(add_point_object(&mut m, "a", EditorTool::DashCrystal, named("dc", 3.0, 3.0)));
    assert!(!add_point_object(&mut m, "a", EditorTool::Hazard, named("x", 3.0, 3.0)));
    assert!(!add_point_object(&mut m, "q", EditorTool::Checkpoint, named("x", 3.0, 3.0)));
    assert_eq!(m.rooms[0].checkpoints[0].id, "cp");
    assert_eq!(m.rooms[0].spawn_points[2].id, "new");
    assert_eq!(m.rooms[0].dashcrystals[0].id, "dc");
    assert!(add_spring_object(&mut m, "c", spring("s1", SpringDirection::Up)));
    assert!(!add_spring_object(&mut m, "q", spring("s2", SpringDirection::Up)));
    assert_eq!(m.rooms[2].springs.len(), 1);
    assert_eq!(room_index(&m, "c"), Some(2));
}

#[test]
fn collision_tileset_is_set() {
    let mut m = map();
    add_rect_object(&mut m, "a", EditorTool::SolidGround, rect(1.0, 2.0, 3.0, 4.0), 1, "dirt");
    assert!(set_collision_tileset(&mut m, "a", 0, "girder"));
    assert_eq!(m.rooms[0].collision[0].art_tag.as_deref(), Some("girder"));
    assert!(!set_collision_tileset(&mut m, "a", 1, "girder"));
    assert!(!set_collision_tileset(&mut m, "nope", 0, "girder"));
}

#[test]
fn selection_positions() {
    let m = map();
    assert_eq!(selection_position(&m, "a", EditorSelection::Exit(0)), Some(pt(5.0, 6.0)));
    assert_eq!(selection_position(&m, "a", EditorSelection::Exit(1)), None);
    assert_eq!(selection_position(&m, "x", EditorSelection::Exit(0)), None);
}

#[test]
fn moving_objects() {
    let mut m = map();
    assert_eq!(move_selection_to(&mut m, "a", EditorSelection::Exit(0), pt(70.0, 80.0), |p: Point, _d| p), Ok(()));
    assert_eq!((m.rooms[0].exits[0].x, m.rooms[0].exits[0].y), (c(70.0), c(80.0)));
    assert_eq!(m.rooms[0].exits[0].w, c(8.0));
    add_spring_object(&mut m, "a", spring("s", SpringDirection::Left));
    let snap = |p: Point, d: SpringDirection| {
        if d == SpringDirection::Left {
            Point { x: c(f32::from_bits(p.x.bits) + 1.0), y: p.y }
        } else {
            p
        }
    };
    assert_eq!(move_selection_to(&mut m, "a", EditorSelection::Spring(0), pt(10.0, 10.0), snap), Ok(()));
    assert_eq!((m.rooms[0].springs[0].x, m.rooms[0].springs[0].y), (c(11.0), c(10.0)));
    assert_eq!(
        move_selection_to(&mut m, "a", EditorSelection::Hazard(0), pt(1.0, 1.0), |p: Point, _d| p),
        Err(EditError::MissingObject)
    );
    assert_eq!(
        move_selection_to(&mut m, "zz", EditorSelection::Exit(0), pt(1.0, 1.0), |p: Point, _d| p),
        Err(EditError::MissingRoom)
    );
}

#[test]
fn moving_keeps_a_valid_map_valid() {
    let mut m = map();
    assert_eq!(validate_map_for_save(&m), Ok(()));
    move_selection_to(&mut m, "b", EditorSelection::SpawnPoint(1), pt(9.0, 9.0), |p: Point, _d| p).unwrap();
    move_selection_to(&mut m, "a", EditorSelection::Exit(0), pt(9.0, 9.0), |p: Point, _d| p).unwrap();
    assert_eq!(validate_map_for_save(&m), Ok(()));
}

#[test]
fn deleting_objects() {
    let mut m = map();
    m.rooms[0].hazards.push(rect(1.0, 1.0, 1.0, 1.0));
    m.rooms[0].hazards.push(rect(2.0, 2.0, 2.0, 2.0));
    assert_eq!(delete_selection(&mut m, "a", EditorSelection::Hazard(0)), Ok(()));
    assert_eq!(m.rooms[0].hazards.len(), 1);
    assert_eq!(m.rooms[0].hazards[0].x, c(2.0));
    assert_eq!(delete_selection(&mut m, "a", EditorSelection::Hazard(5)), Err(EditError::MissingObject));
    assert_eq!(delete_selection(&mut m, "q", EditorSelection::Hazard(0)), Err(EditError::MissingRoom));
    assert_eq!(delete_selection(&mut m, "a", EditorSelection::Exit(0)), Ok(()));
    assert!(m.rooms[0].exits.is_empty());
}

#[test]
fn protected_spawn_points_are_kept() {
    let mut m = map();
    assert_eq!(delete_selection(&mut m, "a", EditorSelection::SpawnPoint(0)), Err(EditError::DefaultSpawn));
    assert_eq!(
        delete_selection(&mut m, "b", EditorSelection::SpawnPoint(0)),
        Err(EditError::DefaultSpawn)
    );
    m.rooms[1].exits.push(exit("loop", "b", "right"));
    assert_eq!(
        delete_selection(&mut m, "b", EditorSelection::SpawnPoint(1)),
        Err(EditError::TargetedByExit { room: 1, exit: 1 })
    );
    assert_eq!(m.rooms[1].spawn_points.len(), 3);
    assert_eq!(delete_selection(&mut m, "b", EditorSelection::SpawnPoint(2)), Ok(()));
    assert_eq!(m.rooms[1].spawn_points.len(), 2);
    assert_eq!(delete_selection(&mut m, "a", EditorSelection::SpawnPoint(1)), Ok(()));
    assert_eq!(m.rooms[0].spawn_points.len(), 1);
}

#[test]
fn deleting_keeps_a_valid_map_valid() {
    let mut m = map();
    assert_eq!(validate_map_for_save(&m), Ok(()));
    for sel in [
        EditorSelection::SpawnPoint(0),
        EditorSelection::SpawnPoint(1),
        EditorSelection::SpawnPoint(2),
        EditorSelection::Exit(0),
    ] {
        let _ = delete_selection(&mut m, "b", sel);
        assert_eq!(validate_map_for_save(&m), Ok(()));
    }
}

#[test]
fn exit_sides_cycle_both_ways() {
    assert_eq!(cycle_exit_side(ExitSide::Left, 1), ExitSide::Right);
    assert_eq!(cycle_exit_side(ExitSide::Right, 1), ExitSide::Top);
    assert_eq!(cycle_exit_side(ExitSide::Top, 1), ExitSide::Bottom);
    assert_eq!(cycle_exit_side(ExitSide::Bottom, 1), ExitSide::Left);
    assert_eq!(cycle_exit_side(ExitSide::Left, -1), ExitSide::Bottom);
    assert_eq!(cycle_exit_side(ExitSide::Top, -1), ExitSide::Right);
    assert_eq!(cycle_exit_side(ExitSide::Right, -6), ExitSide::Bottom);
    assert_eq!(cycle_exit_side(ExitSide::Top, 0), ExitSide::Top);
}

#[test]
fn spawn_choices_of_rooms() {
    let m = map();
    assert_eq!(preferred_spawn_for_room(&m.rooms[1]), "left");
    let mut b = room("b", &["left", "right"]);
    b.default_spawn = "gone".to_string();
    assert_eq!(preferred_spawn_for_room(&b), "left");
    assert_eq!(preferred_spawn_for_room(&m.rooms[2]), "start");
    assert_eq!(cycle_spawn_choice(&m.rooms[1], &"left".to_string(), false), "right");
    assert_eq!(cycle_spawn_choice(&m.rooms[1], &"top".to_string(), false), "left");
    assert_eq!(cycle_spawn_choice(&m.rooms[1], &"left".to_string(), true), "top");
    assert_eq!(cycle_spawn_choice(&m.rooms[1], &"unknown".to_string(), false), "right");
    assert_eq!(cycle_spawn_choice(&m.rooms[2], &"whatever".to_string(), true), "start");
}

#[test]
fn exit_shortcuts() {
    let mut m = map();
    assert_eq!(edit_selected_exit(&mut m, "a", 0, no_keys()), ExitEditOutcome::NoShortcut);
    let keys = ExitShortcuts { cycle_room: true, ..no_keys() };
    assert_eq!(
        edit_selected_exit(&mut m, "a", 0, keys),
        ExitEditOutcome::Changed { target_room_missing: false }
    );
    assert_eq!(m.rooms[0].exits[0].target_room, "c");
    assert_eq!(m.rooms[0].exits[0].target_spawn, "start");
    assert_eq!(edit_selected_exit(&mut m, "a", 0, keys), ExitEditOutcome::Changed { target_room_missing: false });
    assert_eq!(m.rooms[0].exits[0].target_room, "a");
    assert_eq!(m.rooms[0].exits[0].target_spawn, "start");
    let keys = ExitShortcuts { next_spawn: true, next_side: true, toggle_momentum: true, ..no_keys() };
    assert_eq!(edit_selected_exit(&mut m, "a", 0, keys), ExitEditOutcome::Changed { target_room_missing: false });
    let e = &m.rooms[0].exits[0];
    assert_eq!(e.target_spawn, "mid");
    assert_eq!(e.side, ExitSide::Right);
    assert!(e.preserve_momentum);
    let keys = ExitShortcuts { previous_side: true, ..no_keys() };
    edit_selected_exit(&mut m, "a", 0, keys);
    assert_eq!(m.rooms[0].exits[0].side, ExitSide::Left);
}

#[test]
fn exit_shortcuts_that_cannot_apply() {
    let mut m = map();
    let keys = ExitShortcuts { next_spawn: true, ..no_keys() };
    assert_eq!(edit_selected_exit(&mut m, "zz", 0, keys), ExitEditOutcome::MissingActiveRoom);
    assert_eq!(edit_selected_exit(&mut m, "a", 3, keys), ExitEditOutcome::MissingExit);
    m.rooms[0].exits[0].target_room = "ghost".to_string();
    assert_eq!(edit_selected_exit(&mut m, "a", 0, keys), ExitEditOutcome::MissingTargetRoom);
    assert_eq!(m.rooms[0].exits[0].target_spawn, "left");
    let keys = ExitShortcuts { next_spawn: true, toggle_momentum: true, ..no_keys() };
    assert_eq!(edit_selected_exit(&mut m, "a", 0, keys), ExitEditOutcome::Changed { target_room_missing: true });
    assert!(m.rooms[0].exits[0].preserve_momentum);
    assert_eq!(m.rooms[0].exits[0].target_spawn, "left");
}

#[test]
fn exit_room_shortcut_keeps_a_valid_map_valid() {
    let mut m = map();
    let keys = ExitShortcuts { cycle_room: true, ..no_keys() };
    for _ in 0..4 {
        edit_selected_exit(&mut m, "b", 0, keys);
        assert_eq!(validate_map_for_save(&m), Ok(()));
    }
}

#[test]
fn map_tileset_tags_are_normalised() {
    let mut m = map();
    let tags = [Some("TEMPLE_A"), Some("dirt"), None, Some("lava"), Some(" snow ")];
    for tag in tags {
        m.rooms[1].collision.push(CollisionRect {
            kind: CollisionKind::SolidGround,
            x: c(0.0),
            y: c(0.0),
            w: c(1.0),
            h: c(1.0),
            art_tag: tag.map(|t| t.to_string()),
        });
    }
    assert_eq!(normalize_map_tileset_art_tags(&mut m), 2);
    let got: Vec<Option<&str>> = m.rooms[1].collision.iter().map(|c| c.art_tag.as_deref()).collect();
    assert_eq!(got, vec![Some("templeA"), Some("dirt"), None, Some("lava"), Some("snow")]);
    assert_eq!(normalize_map_tileset_art_tags(&mut m), 0);
}

#[test]
fn spring_directions_turn() {
    assert_eq!(SpringDirection::Up.next(), SpringDirection::Right);
    assert_eq!(SpringDirection::Right.next(), SpringDirection::Down);
    assert_eq!(SpringDirection::Down.next(), SpringDirection::Left);
    assert_eq!(SpringDirection::Left.next(), SpringDirection::Up);
    for d in [SpringDirection::Up, SpringDirection::Down, SpringDirection::Left, SpringDirection::Right] {
        assert_eq!(previous_spring_direction(d.next()), d);
        assert_eq!(previous_spring_direction(d).next(), d);
        assert_eq!(d.next().next().next().next(), d);
    }
}

#[test]
fn spring_shortcuts() {
    let mut m = map();
    add_spring_object(&mut m, "a", spring("s", SpringDirection::Up));
    let keep = |p: Point, _d: SpringDirection| p;
    assert_eq!(turn_selected_spring(&mut m, "a", 0, false, false, keep), SpringEditOutcome::NoShortcut);
    assert_eq!(turn_selected_spring(&mut m, "a", 0, false, true, keep), SpringEditOutcome::Turned);
    assert_eq!(m.rooms[0].springs[0].direction, SpringDirection::Right);
    assert_eq!(turn_selected_spring(&mut m, "a", 0, true, false, keep), SpringEditOutcome::Turned);
    assert_eq!(m.rooms[0].springs[0].direction, SpringDirection::Up);
    let shift = |p: Point, _d: SpringDirection| Point { x: p.y, y: p.x };
    assert_eq!(turn_selected_spring(&mut m, "a", 0, true, false, shift), SpringEditOutcome::Turned);
    assert_eq!(m.rooms[0].springs[0].direction, SpringDirection::Left);
    assert_eq!((m.rooms[0].springs[0].x, m.rooms[0].springs[0].y), (c(50.0), c(40.0)));
    assert_eq!(turn_selected_spring(&mut m, "a", 4, true, false, keep), SpringEditOutcome::MissingSpring);
    assert_eq!(turn_selected_spring(&mut m, "x", 0, true, false, keep), SpringEditOutcome::MissingActiveRoom);
}

#[test]
fn exit_keys_undo_each_other() {
    let mut m = map();
    let momentum = ExitShortcuts { toggle_momentum: true, ..no_keys() };
    edit_selected_exit(&mut m, "b", 0, momentum);
    assert!(m.rooms[1].exits[0].preserve_momentum);
    edit_selected_exit(&mut m, "b", 0, momentum);
    assert!(!m.rooms[1].exits[0].preserve_momentum);
    for side in [ExitSide::Left, ExitSide::Right, ExitSide::Top, ExitSide::Bottom] {
        m.rooms[1].exits[0].side = side;
        edit_selected_exit(&mut m, "b", 0, ExitShortcuts { next_side: true, ..no_keys() });
        edit_selected_exit(&mut m, "b", 0, ExitShortcuts { previous_side: true, ..no_keys() });
        assert_eq!(m.rooms[1].exits[0].side, side);
        edit_selected_exit(&mut m, "b", 0, ExitShortcuts { previous_side: true, ..no_keys() });
        edit_selected_exit(&mut m, "b", 0, ExitShortcuts { next_side: true, ..no_keys() });
        assert_eq!(m.rooms[1].exits[0].side, side);
    }
    assert_eq!(m.rooms[1].exits[0].target_room, "a");
    assert_eq!(m.rooms[1].exits[0].target_spawn, "start");
}
