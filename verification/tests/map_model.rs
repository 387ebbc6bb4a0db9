use celeste::gameplay::{map_entry_point, plan_room_transition, ActiveRoom, MapEntryError};
use celeste::geometry::{Coord, Point};
use celeste::level::{
    find_point_index, find_room_index, MapFile, NamedPoint, RectData, RoomData,
};

fn c(v: f32) -> Coord {
    Coord { bits: v.to_bits() }
}

fn pt(x: f32, y: f32) -> Point {
    Point { x: c(x), y: c(y) }
}

fn named(id: &str, x: f32, y: f32) -> NamedPoint {
    NamedPoint { id: id.to_string(), x: c(x), y: c(y) }
}

fn bounds() -> RectData {
    RectData { x: c(0.0), y: c(0.0), w: c(320.0), h: c(180.0) }
}

fn room(id: &str, default_spawn: &str, spawns: Vec<NamedPoint>) -> RoomData {
    RoomData {
        id: id.to_string(),
        bounds: bounds(),
        default_spawn: default_spawn.to_string(),
        spawn_points: spawns,
        collision: Vec::new(),
        hazards: Vec::new(),
        checkpoints: Vec::new(),
        dashcrystals: Vec::new(),
        springs: Vec::new(),
        exits: Vec::new(),
        completion_zones: Vec::new(),
        grasses: Vec::new(),
    }
}

fn two_room_map() -> MapFile {
    let mut b = room("b", "entry", vec![named("entry", 10.0, 20.0), named("side", 30.0, 40.0)]);
    b.checkpoints.push(named("cp", 50.0, 60.0));
    MapFile {
        id: "m".to_string(),
        start_room: "a".to_string(),
        rooms: vec![room("a", "start", vec![named("start", 1.0, 2.0)]), b],
    }
}

#[test]
fn room_lookup_by_id() {
    let map = two_room_map();
    assert_eq!(map.room("b").unwrap().id, "b");
    assert!(map.room("c").is_none());
    assert_eq!(map.starting_room().unwrap().id, "a");
}

#[test]
fn first_room_with_an_id_wins() {
    let mut map = two_room_map();
    map.rooms.push(room("a", "other", Vec::new()));
    assert_eq!(map.room("a").unwrap().default_spawn, "start");
    assert_eq!(find_room_index(&map.rooms, &"a".to_string()), Some(0));
    assert_eq!(find_room_index(&map.rooms, &"zz".to_string()), None);
}

#[test]
fn spawn_point_lookup() {
    let map = two_room_map();
    let b = map.room("b").unwrap();
    assert_eq!(b.spawn_point("side"), Some(pt(30.0, 40.0)));
    assert_eq!(b.spawn_point("nowhere"), None);
    assert_eq!(b.default_spawn_point(), Some(pt(10.0, 20.0)));
    assert_eq!(find_point_index(&b.spawn_points, &"side".to_string()), Some(1));
}

#[test]
fn respawn_prefers_checkpoint_then_default_spawn_then_entry() {
    let map = two_room_map();
    let b = map.room("b").unwrap();
    assert_eq!(b.respawn_point(pt(99.0, 99.0)), pt(50.0, 60.0));
    let a = map.room("a").unwrap();
    assert_eq!(a.respawn_point(pt(99.0, 99.0)), pt(1.0, 2.0));
    let lost = room("lost", "missing", Vec::new());
    assert_eq!(lost.respawn_point(pt(7.0, 8.0)), pt(7.0, 8.0));
}

#[test]
fn rect_center_and_size() {
    let r = RectData { x: c(5.0), y: c(6.0), w: c(7.0), h: c(8.0) };
    assert_eq!(r.center(), pt(5.0, 6.0));
    assert_eq!(r.size(), pt(7.0, 8.0));
}

#[test]
fn room_transition_plan() {
    let map = two_room_map();
    let plan = plan_room_transition(&map, "b", "side").unwrap();
    assert_eq!(plan, (1, pt(30.0, 40.0), pt(50.0, 60.0)));
    assert_eq!(plan_room_transition(&map, "b", "nope"), None);
    assert_eq!(plan_room_transition(&map, "q", "side"), None);
}

#[test]
fn following_an_exit_moves_the_active_room() {
    let map = two_room_map();
    let mut active = ActiveRoom {
        map_id: "m".to_string(),
        room_id: "a".to_string(),
        respawn_point: pt(1.0, 2.0),
    };
    assert_eq!(active.follow_exit(&map, "b", "entry"), Some((1, pt(10.0, 20.0))));
    assert_eq!(active.room_id, "b");
    assert_eq!(active.map_id, "m");
    assert_eq!(active.respawn_point, pt(50.0, 60.0));
    assert_eq!(active.follow_exit(&map, "a", "nope"), None);
    assert_eq!(active.room_id, "b");
    assert_eq!(active.respawn_point, pt(50.0, 60.0));
    active.touch_checkpoint(pt(3.0, 4.0));
    assert_eq!(active.respawn_point, pt(3.0, 4.0));
    assert_eq!(active.room_id, "b");
}

#[test]
fn entering_a_map() {
    let map = two_room_map();
    assert_eq!(map_entry_point(&map), Ok((0, pt(1.0, 2.0))));
    let mut no_start = two_room_map();
    no_start.start_room = "gone".to_string();
    assert_eq!(map_entry_point(&no_start), Err(MapEntryError::MissingStartRoom));
    let mut no_spawn = two_room_map();
    no_spawn.rooms[0].default_spawn = "gone".to_string();
    assert_eq!(map_entry_point(&no_spawn), Err(MapEntryError::MissingDefaultSpawn));
}
