use celeste::geometry::Coord;
use celeste::level::{
    CollisionKind, CollisionRect, ExitSide, MapFile, NamedPoint, RectData, RoomData, RoomExitData,
};
use celeste::validation::{find_room_error, is_blank, validate_map_for_save, MapValidationError};

fn c(v: f32) -> Coord {
    Coord { bits: v.to_bits() }
}

fn named(id: &str, x: f32, y: f32) -> NamedPoint {
    NamedPoint { id: id.to_string(), x: c(x), y: c(y) }
}

fn rect(w: f32, h: f32) -> RectData {
    RectData { x: c(0.0), y: c(0.0), w: c(w), h: c(h) }
}

fn room(id: &str, spawn: &str) -> RoomData {
    RoomData {
        id: id.to_string(),
        bounds: rect(320.0, 180.0),
        default_spawn: spawn.to_string(),
        spawn_points: vec![named(spawn, 0.0, 0.0)],
        collision: Vec::new(),
        hazards: Vec::new(),
        checkpoints: Vec::new(),
        dashcrystals: Vec::new(),
        springs: Vec::new(),
        exits: Vec::new(),
        completion_zones: Vec::new(),
        grasses: Vec::new(),
    }
}

fn collision(w: f32, h: f32, tag: Option<&str>) -> CollisionRect {
    CollisionRect {
        kind: CollisionKind::SolidGround,
        x: c(0.0),
        y: c(0.0),
        w: c(w),
        h: c(h),
        art_tag: tag.map(|t| t.to_string()),
    }
}

fn exit(target_room: &str, target_spawn: &str, w: f32) -> RoomExitData {
    RoomExitData {
        id: "e".to_string(),
        side: ExitSide::Right,
        target_room: target_room.to_string(),
        target_spawn: target_spawn.to_string(),
        x: c(0.0),
        y: c(0.0),
        w: c(w),
        h: c(16.0),
        preserve_momentum: false,
    }
}

fn valid_map() -> MapFile {
    let mut a = room("a", "s");
    a.collision.push(collision(16.0, 16.0, Some("dirt")));
    a.exits.push(exit("b", "t", 8.0));
    let mut b = room("b", "t");
    b.exits.push(exit("a", "s", 8.0));
    MapFile { id: "chapter".to_string(), start_room: "a".to_string(), rooms: vec![a, b] }
}

#[test]
fn a_sound_map_can_be_saved() {
    assert_eq!(validate_map_for_save(&valid_map()), Ok(()));
}

#[test]
fn blank_map_id() {
    let mut map = valid_map();
    map.id = " \t ".to_string();
    assert_eq!(validate_map_for_save(&map), Err(MapValidationError::EmptyMapId));
    assert!(is_blank(""));
    assert!(!is_blank(" x "));
}

#[test]
fn map_without_rooms() {
    let map = MapFile { id: "m".to_string(), start_room: "a".to_string(), rooms: Vec::new() };
    assert_eq!(validate_map_for_save(&map), Err(MapValidationError::NoRooms));
}

#[test]
fn missing_start_room() {
    let mut map = valid_map();
    map.start_room = "zzz".to_string();
    assert_eq!(validate_map_for_save(&map), Err(MapValidationError::MissingStartRoom));
}

#[test]
fn empty_room_id() {
    let mut map = valid_map();
    map.rooms.push(room("  ", "s"));
    assert_eq!(validate_map_for_save(&map), Err(MapValidationError::EmptyRoomId { room: 2 }));
}

#[test]
fn bounds_must_be_positive() {
    let mut map = valid_map();
    map.rooms[1].bounds = rect(320.0, 0.0);
    assert_eq!(validate_map_for_save(&map), Err(MapValidationError::InvalidBounds { room: 1 }));
    map.rooms[1].bounds = rect(-0.0, 10.0);
    assert_eq!(validate_map_for_save(&map), Err(MapValidationError::InvalidBounds { room: 1 }));
}

#[test]
fn nan_sizes_are_not_rejected() {
    let mut map = valid_map();
    map.rooms[0].bounds = rect(f32::NAN, 180.0);
    assert_eq!(validate_map_for_save(&map), Ok(()));
}

#[test]
fn default_spawn_must_exist() {
    let mut map = valid_map();
    map.rooms[0].default_spawn = "elsewhere".to_string();
    assert_eq!(validate_map_for_save(&map), Err(MapValidationError::MissingDefaultSpawn { room: 0 }));
}

#[test]
fn collision_sizes_and_art_tags() {
    let mut map = valid_map();
    map.rooms[1].collision.push(collision(16.0, 16.0, None));
    map.rooms[1].collision.push(collision(16.0, -2.0, Some("dirt")));
    assert_eq!(
        validate_map_for_save(&map),
        Err(MapValidationError::InvalidCollision { room: 1, collision: 1 })
    );
    map.rooms[1].collision[1] = collision(16.0, 2.0, Some("lava"));
    assert_eq!(
        validate_map_for_save(&map),
        Err(MapValidationError::InvalidArtTag { room: 1, collision: 1 })
    );
    map.rooms[1].collision[1] = collision(16.0, 2.0, Some("  Temple_A "));
    assert_eq!(validate_map_for_save(&map), Ok(()));
}

#[test]
fn hazard_sizes() {
    let mut map = valid_map();
    map.rooms[0].hazards.push(rect(8.0, 8.0));
    map.rooms[0].hazards.push(rect(0.0, 8.0));
    assert_eq!(
        validate_map_for_save(&map),
        Err(MapValidationError::InvalidHazard { room: 0, hazard: 1 })
    );
}

#[test]
fn completion_zone_sizes() {
    let mut map = valid_map();
    map.rooms[1].completion_zones.push(rect(8.0, -8.0));
    assert_eq!(
        validate_map_for_save(&map),
        Err(MapValidationError::InvalidCompletionZone { room: 1, zone: 0 })
    );
}

#[test]
fn exit_sizes_and_targets() {
    let mut map = valid_map();
    map.rooms[0].exits[0] = exit("b", "t", 0.0);
    assert_eq!(validate_map_for_save(&map), Err(MapValidationError::InvalidExit { room: 0, exit: 0 }));
    map.rooms[0].exits[0] = exit("nowhere", "t", 8.0);
    assert_eq!(
        validate_map_for_save(&map),
        Err(MapValidationError::MissingExitTargetRoom { room: 0, exit: 0 })
    );
    map.rooms[0].exits[0] = exit("b", "nothing", 8.0);
    assert_eq!(
        validate_map_for_save(&map),
        Err(MapValidationError::MissingExitTargetSpawn { room: 0, exit: 0 })
    );
}

#[test]
fn first_fault_in_check_order_is_reported() {
    let mut map = valid_map();
    map.rooms[0].hazards.push(rect(0.0, 1.0));
    map.rooms[0].default_spawn = "gone".to_string();
    map.rooms[1].bounds = rect(0.0, 0.0);
    assert_eq!(validate_map_for_save(&map), Err(MapValidationError::MissingDefaultSpawn { room: 0 }));
    assert_eq!(find_room_error(&map, 1), Some(MapValidationError::InvalidBounds { room: 1 }));
    assert_eq!(find_room_error(&valid_map(), 1), None);
}
