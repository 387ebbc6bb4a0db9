use vstd::prelude::*;

use crate::geometry::Point;
use vstd::arithmetic::div_mod::{lemma_mod_add_multiples_vanish, lemma_mod_self_0, lemma_small_mod};
use crate::level::{
    find_point_index, find_room_index, first_index, has_spawn, is_first_index, point_ids,
    points_view, lemma_collisions_view_push, lemma_first_index_some, room_ids, lemma_collisions_view_update,
    lemma_collisions_view_remove, lemma_exits_view_push, lemma_exits_view_remove,
    lemma_exits_view_update, lemma_points_view_push, lemma_points_view_remove,
    lemma_springs_view_remove,
    lemma_points_view_update, lemma_rooms_view_update, lemma_springs_view_push,
    lemma_springs_view_update, map_with_room, room_position, CollisionKind, CollisionRect,
    CollisionView, ExitSide, ExitView, MapFile, MapView, NamedPoint, NamedPointView, RectData,
    RoomData, RoomExitData, RoomView, SpringData, SpringDirection, SpringView,
};
use crate::search::{
    first_where, last_where, lemma_first_where_found, lemma_first_where_none,
    lemma_last_where_found, lemma_last_where_none, lemma_last_where_spec,
};
use crate::text::{decimal, trimmed, with_decimal_suffix};
use crate::tileset::{
    lemma_normalize_idempotent, next_tag_after, next_tileset_art_tag,
    normalize_tileset_art_tag_kind, normalized_tag, tag_name, TilesetArtTag,
};
use crate::validation::{
    collision_fault, dims_bad, exit_fault, lemma_room_ids_kept, lemma_room_valid_kept,
    lemma_valid_after_room_update, map_error, map_valid, room_valid, spawns_kept,
    validate_map_for_save, MapValidationError,
};

verus! {

/// What a left click does in the map editor.
#[derive(Clone, Copy, Debug, PartialEq, Eq, Structural)]
pub enum EditorTool {
    Select,
    SolidGround,
    Hazard,
    Checkpoint,
    SpawnPoint,
    DashCrystal,
    Spring,
    Exit,
    CompletionZone,
    Grass,
}

/// The editor tools that draw a rectangle by dragging.
pub open spec fn rect_tool(tool: EditorTool) -> bool {
    match tool {
        EditorTool::SolidGround | EditorTool::Hazard | EditorTool::Exit
        | EditorTool::CompletionZone | EditorTool::Grass => true,
        _ => false,
    }
}

/// The editor tools that place a named point with a click.
pub open spec fn point_tool(tool: EditorTool) -> bool {
    match tool {
        EditorTool::Checkpoint | EditorTool::SpawnPoint | EditorTool::DashCrystal => true,
        _ => false,
    }
}

impl EditorTool {
    /// Whether the tool draws a rectangle by dragging.
    pub fn is_rect_tool(self) -> (res: bool)
        ensures
            res == rect_tool(self),
    {
        match self {
            EditorTool::SolidGround | EditorTool::Hazard | EditorTool::Exit
            | EditorTool::CompletionZone | EditorTool::Grass => true,
            _ => false,
        }
    }
}

/// An object of the active room, named by its list and its position there.
#[derive(Clone, Copy, Debug, PartialEq, Eq, Structural)]
pub enum EditorSelection {
    Collision(usize),
    Hazard(usize),
    Checkpoint(usize),
    SpawnPoint(usize),
    DashCrystal(usize),
    Spring(usize),
    Exit(usize),
    CompletionZone(usize),
    Grass(usize),
}

/// The position of the first room of `map` with the given id.
pub fn room_index(map: &MapFile, room_id: &str) -> (res: Option<usize>)
    ensures
        res matches Some(i) ==> room_position(map@.rooms, room_id@) == Some(i as int),
        res is None ==> room_position(map@.rooms, room_id@) is None,
{
    let key = String::from_str(room_id);
    find_room_index(&map.rooms, &key)
}

pub open spec fn collision_of_rect(rect: RectData, tileset: Seq<char>) -> CollisionView {
    CollisionView {
        kind: CollisionKind::SolidGround,
        x: rect.x,
        y: rect.y,
        w: rect.w,
        h: rect.h,
        art_tag: Some(tileset),
    }
}

pub open spec fn exit_of_rect(r: RoomView, rect: RectData, next_id: u32) -> ExitView {
    ExitView {
        id: "editor_exit_"@ + decimal(next_id as nat),
        side: ExitSide::Right,
        target_room: r.id,
        target_spawn: r.default_spawn,
        x: rect.x,
        y: rect.y,
        w: rect.w,
        h: rect.h,
        preserve_momentum: false,
    }
}

/// Room `r` after a rectangle drawn with `tool` is added to it: solid ground
/// becomes a collision drawn with the current tileset, an exit leads back to
/// the room's own default spawn point through its right side.
pub open spec fn room_with_rect(
    r: RoomView,
    tool: EditorTool,
    rect: RectData,
    next_id: u32,
    tileset: Seq<char>,
) -> RoomView {
    match tool {
        EditorTool::SolidGround => RoomView {
            collision: r.collision.push(collision_of_rect(rect, tileset)),
            ..r
        },
        EditorTool::Hazard => RoomView { hazards: r.hazards.push(rect), ..r },
        EditorTool::Exit => RoomView { exits: r.exits.push(exit_of_rect(r, rect, next_id)), ..r },
        EditorTool::CompletionZone => RoomView {
            completion_zones: r.completion_zones.push(rect),
            ..r
        },
        EditorTool::Grass => RoomView { grasses: r.grasses.push(rect), ..r },
        _ => r,
    }
}

/// Adds a rectangle drawn with a rectangle tool to the room with the given
/// id; returns whether something was added.
pub fn add_rect_object(
    map: &mut MapFile,
    room_id: &str,
    tool: EditorTool,
    rect: RectData,
    next_id: u32,
    current_tileset: &str,
) -> (res: bool)
    ensures
        res == (room_position(old(map)@.rooms, room_id@) is Some && rect_tool(tool)),
        res ==> final(map)@ == map_with_room(
            old(map)@,
            room_position(old(map)@.rooms, room_id@)->0,
            room_with_rect(
                old(map)@.rooms[room_position(old(map)@.rooms, room_id@)->0],
                tool,
                rect,
                next_id,
                current_tileset@,
            ),
        ),
        !res ==> final(map)@ == old(map)@,
{
    let i = match room_index(map, room_id) {
        Some(i) => i,
        None => return false,
    };
    let ghost old_rooms = map.rooms@;
    let ghost old_room = map.rooms@[i as int];
    assert(old(map)@.rooms[i as int] == old_room@);
    match tool {
        EditorTool::SolidGround => {
            let c = CollisionRect {
                kind: CollisionKind::SolidGround,
                x: rect.x,
                y: rect.y,
                w: rect.w,
                h: rect.h,
                art_tag: Some(String::from_str(current_tileset)),
            };
            map.rooms[i].collision.push(c);
            proof {
                lemma_collisions_view_push(old_room.collision@, c);
                lemma_rooms_view_update(old_rooms, i as int, map.rooms@[i as int]);
                assert(map.rooms@ == old_rooms.update(i as int, map.rooms@[i as int]));
            }
            true
        },
        EditorTool::Hazard => {
            map.rooms[i].hazards.push(rect);
            proof {
                lemma_rooms_view_update(old_rooms, i as int, map.rooms@[i as int]);
            }
            true
        },
        EditorTool::Exit => {
            let target_room = map.rooms[i].id.clone();
            let target_spawn = map.rooms[i].default_spawn.clone();
            let e = RoomExitData {
                id: with_decimal_suffix("editor_exit_", next_id),
                side: ExitSide::Right,
                target_room,
                target_spawn,
                x: rect.x,
                y: rect.y,
                w: rect.w,
                h: rect.h,
                preserve_momentum: false,
            };
            map.rooms[i].exits.push(e);
            proof {
                lemma_exits_view_push(old_room.exits@, e);
                lemma_rooms_view_update(old_rooms, i as int, map.rooms@[i as int]);
            }
            true
        },
        EditorTool::CompletionZone => {
            map.rooms[i].completion_zones.push(rect);
            proof {
                lemma_rooms_view_update(old_rooms, i as int, map.rooms@[i as int]);
            }
            true
        },
        EditorTool::Grass => {
            map.rooms[i].grasses.push(rect);
            proof {
                lemma_rooms_view_update(old_rooms, i as int, map.rooms@[i as int]);
            }
            true
        },
        _ => false,
    }
}


/// Room `r` after the point placed with `tool` is added to it.
pub open spec fn room_with_point(r: RoomView, tool: EditorTool, point: NamedPointView) -> RoomView {
    match tool {
        EditorTool::Checkpoint => RoomView { checkpoints: r.checkpoints.push(point), ..r },
        EditorTool::SpawnPoint => RoomView { spawn_points: r.spawn_points.push(point), ..r },
        EditorTool::DashCrystal => RoomView { dashcrystals: r.dashcrystals.push(point), ..r },
        _ => r,
    }
}

/// Adds a point placed with a point tool to the room with the given id;
/// returns whether something was added.
pub fn add_point_object(map: &mut MapFile, room_id: &str, tool: EditorTool, point: NamedPoint) -> (res:
    bool)
    ensures
        res == (room_position(old(map)@.rooms, room_id@) is Some && point_tool(tool)),
        res ==> final(map)@ == map_with_room(
            old(map)@,
            room_position(old(map)@.rooms, room_id@)->0,
            room_with_point(
                old(map)@.rooms[room_position(old(map)@.rooms, room_id@)->0],
                tool,
                point@,
            ),
        ),
        !res ==> final(map)@ == old(map)@,
{
    let i = match room_index(map, room_id) {
        Some(i) => i,
        None => return false,
    };
    let ghost old_rooms = map.rooms@;
    let ghost old_room = map.rooms@[i as int];
    let ghost p = point;
    assert(old(map)@.rooms[i as int] == old_room@);
    match tool {
        EditorTool::Checkpoint => {
            map.rooms[i].checkpoints.push(point);
            proof {
                lemma_points_view_push(old_room.checkpoints@, p);
                lemma_rooms_view_update(old_rooms, i as int, map.rooms@[i as int]);
            }
            true
        },
        EditorTool::SpawnPoint => {
            map.rooms[i].spawn_points.push(point);
            proof {
                lemma_points_view_push(old_room.spawn_points@, p);
                lemma_rooms_view_update(old_rooms, i as int, map.rooms@[i as int]);
            }
            true
        },
        EditorTool::DashCrystal => {
            map.rooms[i].dashcrystals.push(point);
            proof {
                lemma_points_view_push(old_room.dashcrystals@, p);
                lemma_rooms_view_update(old_rooms, i as int, map.rooms@[i as int]);
            }
            true
        },
        _ => false,
    }
}

/// Adds a spring to the room with the given id; returns whether the room
/// exists.
pub fn add_spring_object(map: &mut MapFile, room_id: &str, spring: SpringData) -> (res: bool)
    ensures
        res == (room_position(old(map)@.rooms, room_id@) is Some),
        res ==> final(map)@ == map_with_room(
            old(map)@,
            room_position(old(map)@.rooms, room_id@)->0,
            RoomView {
                springs: old(map)@.rooms[room_position(old(map)@.rooms, room_id@)->0].springs.push(
                    spring@,
                ),
                ..old(map)@.rooms[room_position(old(map)@.rooms, room_id@)->0]
            },
        ),
        !res ==> final(map)@ == old(map)@,
{
    let i = match room_index(map, room_id) {
        Some(i) => i,
        None => return false,
    };
    let ghost old_rooms = map.rooms@;
    let ghost old_room = map.rooms@[i as int];
    let ghost sp = spring;
    assert(old(map)@.rooms[i as int] == old_room@);
    map.rooms[i].springs.push(spring);
    proof {
        lemma_springs_view_push(old_room.springs@, sp);
        lemma_rooms_view_update(old_rooms, i as int, map.rooms@[i as int]);
    }
    true
}

/// Sets the tileset of collision `collision_index` of the room with the given
/// id; returns whether that collision exists.
pub fn set_collision_tileset(map: &mut MapFile, room_id: &str, collision_index: usize, art_tag: &str) -> (res:
    bool)
    ensures
        res == (room_position(old(map)@.rooms, room_id@) is Some && collision_index < old(
            map,
        )@.rooms[room_position(old(map)@.rooms, room_id@)->0].collision.len()),
        res ==> ({
            let p = room_position(old(map)@.rooms, room_id@)->0;
            let r = old(map)@.rooms[p];
            final(map)@ == map_with_room(
                old(map)@,
                p,
                RoomView {
                    collision: r.collision.update(
                        collision_index as int,
                        CollisionView { art_tag: Some(art_tag@), ..r.collision[collision_index as int] },
                    ),
                    ..r
                },
            )
        }),
        !res ==> final(map)@ == old(map)@,
{
    let i = match room_index(map, room_id) {
        Some(i) => i,
        None => return false,
    };
    let ghost old_rooms = map.rooms@;
    let ghost old_room = map.rooms@[i as int];
    assert(old(map)@.rooms[i as int] == old_room@);
    if collision_index >= map.rooms[i].collision.len() {
        return false;
    }
    let ghost old_c = old_room.collision@[collision_index as int];
    map.rooms[i].collision[collision_index].art_tag = Some(String::from_str(art_tag));
    proof {
        let new_c = map.rooms@[i as int].collision@[collision_index as int];
        assert(map.rooms@[i as int].collision@ == old_room.collision@.update(collision_index as int, new_c));
        lemma_collisions_view_update(old_room.collision@, collision_index as int, new_c);
        lemma_rooms_view_update(old_rooms, i as int, map.rooms@[i as int]);
    }
    true
}


/// Where the selected object of room `r` stands, if it exists.
pub open spec fn selection_point(r: RoomView, selection: EditorSelection) -> Option<Point> {
    match selection {
        EditorSelection::Collision(i) => if i < r.collision.len() {
            Some(Point { x: r.collision[i as int].x, y: r.collision[i as int].y })
        } else {
            None
        },
        EditorSelection::Hazard(i) => if i < r.hazards.len() {
            Some(Point { x: r.hazards[i as int].x, y: r.hazards[i as int].y })
        } else {
            None
        },
        EditorSelection::Checkpoint(i) => if i < r.checkpoints.len() {
            Some(Point { x: r.checkpoints[i as int].x, y: r.checkpoints[i as int].y })
        } else {
            None
        },
        EditorSelection::SpawnPoint(i) => if i < r.spawn_points.len() {
            Some(Point { x: r.spawn_points[i as int].x, y: r.spawn_points[i as int].y })
        } else {
            None
        },
        EditorSelection::DashCrystal(i) => if i < r.dashcrystals.len() {
            Some(Point { x: r.dashcrystals[i as int].x, y: r.dashcrystals[i as int].y })
        } else {
            None
        },
        EditorSelection::Spring(i) => if i < r.springs.len() {
            Some(Point { x: r.springs[i as int].x, y: r.springs[i as int].y })
        } else {
            None
        },
        EditorSelection::Exit(i) => if i < r.exits.len() {
            Some(Point { x: r.exits[i as int].x, y: r.exits[i as int].y })
        } else {
            None
        },
        EditorSelection::CompletionZone(i) => if i < r.completion_zones.len() {
            Some(Point { x: r.completion_zones[i as int].x, y: r.completion_zones[i as int].y })
        } else {
            None
        },
        EditorSelection::Grass(i) => if i < r.grasses.len() {
            Some(Point { x: r.grasses[i as int].x, y: r.grasses[i as int].y })
        } else {
            None
        },
    }
}

/// The selected object of room `r` exists.
pub open spec fn selection_exists(r: RoomView, selection: EditorSelection) -> bool {
    selection_point(r, selection) is Some
}

/// Where the selected object of the room with the given id stands.
pub fn selection_position(map: &MapFile, room_id: &str, selection: EditorSelection) -> (res: Option<Point>)
    ensures
        res == (match room_position(map@.rooms, room_id@) {
            Some(p) => selection_point(map@.rooms[p], selection),
            None => None,
        }),
{
    let i = match room_index(map, room_id) {
        Some(i) => i,
        None => return None,
    };
    let room = &map.rooms[i];
    assert(map@.rooms[i as int] == room@);
    match selection {
        EditorSelection::Collision(k) => if k < room.collision.len() {
            Some(Point { x: room.collision[k].x, y: room.collision[k].y })
        } else {
            None
        },
        EditorSelection::Hazard(k) => if k < room.hazards.len() {
            Some(Point { x: room.hazards[k].x, y: room.hazards[k].y })
        } else {
            None
        },
        EditorSelection::Checkpoint(k) => if k < room.checkpoints.len() {
            Some(Point { x: room.checkpoints[k].x, y: room.checkpoints[k].y })
        } else {
            None
        },
        EditorSelection::SpawnPoint(k) => if k < room.spawn_points.len() {
            Some(Point { x: room.spawn_points[k].x, y: room.spawn_points[k].y })
        } else {
            None
        },
        EditorSelection::DashCrystal(k) => if k < room.dashcrystals.len() {
            Some(Point { x: room.dashcrystals[k].x, y: room.dashcrystals[k].y })
        } else {
            None
        },
        EditorSelection::Spring(k) => if k < room.springs.len() {
            Some(Point { x: room.springs[k].x, y: room.springs[k].y })
        } else {
            None
        },
        EditorSelection::Exit(k) => if k < room.exits.len() {
            Some(Point { x: room.exits[k].x, y: room.exits[k].y })
        } else {
            None
        },
        EditorSelection::CompletionZone(k) => if k < room.completion_zones.len() {
            Some(Point { x: room.completion_zones[k].x, y: room.completion_zones[k].y })
        } else {
            None
        },
        EditorSelection::Grass(k) => if k < room.grasses.len() {
            Some(Point { x: room.grasses[k].x, y: room.grasses[k].y })
        } else {
            None
        },
    }
}

/// Why a selected object could not be moved or deleted.
#[derive(Clone, Copy, Debug, PartialEq, Eq, Structural)]
pub enum EditError {
    /// No room has the active room's id.
    MissingRoom,
    /// The selected object no longer exists.
    MissingObject,
    /// The spawn point is its room's default spawn point.
    DefaultSpawn,
    /// An exit (of the given room, at the given position) leads to the spawn
    /// point.
    TargetedByExit { room: usize, exit: usize },
}

/// Room `r` with the selected object moved to `target`; a spring goes to
/// `spring_target` instead, the grid position that fits its direction.
pub open spec fn room_with_moved(
    r: RoomView,
    selection: EditorSelection,
    target: Point,
    spring_target: Point,
) -> RoomView {
    match selection {
        EditorSelection::Collision(i) => RoomView {
            collision: r.collision.update(
                i as int,
                CollisionView { x: target.x, y: target.y, ..r.collision[i as int] },
            ),
            ..r
        },
        EditorSelection::Hazard(i) => RoomView {
            hazards: r.hazards.update(
                i as int,
                RectData { x: target.x, y: target.y, ..r.hazards[i as int] },
            ),
            ..r
        },
        EditorSelection::Checkpoint(i) => RoomView {
            checkpoints: r.checkpoints.update(
                i as int,
                NamedPointView { x: target.x, y: target.y, ..r.checkpoints[i as int] },
            ),
            ..r
        },
        EditorSelection::SpawnPoint(i) => RoomView {
            spawn_points: r.spawn_points.update(
                i as int,
                NamedPointView { x: target.x, y: target.y, ..r.spawn_points[i as int] },
            ),
            ..r
        },
        EditorSelection::DashCrystal(i) => RoomView {
            dashcrystals: r.dashcrystals.update(
                i as int,
                NamedPointView { x: target.x, y: target.y, ..r.dashcrystals[i as int] },
            ),
            ..r
        },
        EditorSelection::Spring(i) => RoomView {
            springs: r.springs.update(
                i as int,
                SpringView { x: spring_target.x, y: spring_target.y, ..r.springs[i as int] },
            ),
            ..r
        },
        EditorSelection::Exit(i) => RoomView {
            exits: r.exits.update(
                i as int,
                ExitView { x: target.x, y: target.y, ..r.exits[i as int] },
            ),
            ..r
        },
        EditorSelection::CompletionZone(i) => RoomView {
            completion_zones: r.completion_zones.update(
                i as int,
                RectData { x: target.x, y: target.y, ..r.completion_zones[i as int] },
            ),
            ..r
        },
        EditorSelection::Grass(i) => RoomView {
            grasses: r.grasses.update(
                i as int,
                RectData { x: target.x, y: target.y, ..r.grasses[i as int] },
            ),
            ..r
        },
    }
}

/// Map `m2` and result `res` are what moving the selected object of room
/// `room_id` of map `m` to `target` makes, a spring going to a position that
/// `snap_spring` may give for it.
pub open spec fn moved_as<F: Fn(Point, SpringDirection) -> Point>(
    m: MapView,
    m2: MapView,
    room_id: Seq<char>,
    selection: EditorSelection,
    target: Point,
    snap_spring: F,
    res: Result<(), EditError>,
) -> bool {
    match room_position(m.rooms, room_id) {
        None => res == Err::<(), EditError>(EditError::MissingRoom) && m2 == m,
        Some(p) => {
            let r = m.rooms[p];
            if selection_exists(r, selection) {
                &&& res is Ok
                &&& exists|q: Point|
                    (selection matches EditorSelection::Spring(k) ==> snap_spring.ensures(
                        (target, r.springs[k as int].direction),
                        q,
                    )) && m2 == map_with_room(m, p, room_with_moved(r, selection, target, q))
            } else {
                res == Err::<(), EditError>(EditError::MissingObject) && m2 == m
            }
        },
    }
}

/// Moves the selected object of the room with the given id to `target`.
/// A spring is moved to `snap_spring(target, its direction)`, the position
/// that keeps its base on the drag grid.
#[verifier::spinoff_prover]
pub fn move_selection_to<F: Fn(Point, SpringDirection) -> Point>(
    map: &mut MapFile,
    room_id: &str,
    selection: EditorSelection,
    target: Point,
    snap_spring: F,
) -> (res: Result<(), EditError>)
    requires
        forall|p: Point, d: SpringDirection| snap_spring.requires((p, d)),
    ensures
        moved_as(old(map)@, final(map)@, room_id@, selection, target, snap_spring, res),
        room_position(old(map)@.rooms, room_id@) is None ==> res == Err::<(), EditError>(
            EditError::MissingRoom,
        ) && final(map)@ == old(map)@,
        room_position(old(map)@.rooms, room_id@) matches Some(p) ==> {
            let r = old(map)@.rooms[p];
            if selection_exists(r, selection) {
                &&& res is Ok
                &&& exists|q: Point|
                    (selection matches EditorSelection::Spring(k) ==> snap_spring.ensures(
                        (target, r.springs[k as int].direction),
                        q,
                    )) && final(map)@ == map_with_room(
                        old(map)@,
                        p,
                        room_with_moved(r, selection, target, q),
                    )
            } else {
                res == Err::<(), EditError>(EditError::MissingObject) && final(map)@ == old(map)@
            }
        },
{
    let i = match room_index(map, room_id) {
        Some(i) => i,
        None => return Err(EditError::MissingRoom),
    };
    let ghost old_rooms = map.rooms@;
    let ghost old_room = map.rooms@[i as int];
    assert(old(map)@.rooms[i as int] == old_room@);
    match selection {
        EditorSelection::Collision(k) => {
            if k >= map.rooms[i].collision.len() {
                return Err(EditError::MissingObject);
            }
            map.rooms[i].collision[k].x = target.x;
            map.rooms[i].collision[k].y = target.y;
            proof {
                let nr = map.rooms@[i as int];
                assert(nr.collision@ == old_room.collision@.update(k as int, nr.collision@[k as int]));
                lemma_collisions_view_update(old_room.collision@, k as int, nr.collision@[k as int]);
                assert(nr.collision@[k as int]@ == CollisionView { x: target.x, y: target.y, ..old_room.collision@[k as int]@ });
                assert(nr@ == room_with_moved(old_room@, selection, target, target));
                assert(map.rooms@ =~= old_rooms.update(i as int, nr));
                lemma_rooms_view_update(old_rooms, i as int, nr);
                assert(map@.rooms =~= old(map)@.rooms.update(i as int, nr@));
                assert(map@ == map_with_room(old(map)@, i as int, room_with_moved(old_room@, selection, target, target)));
            }
        },
        EditorSelection::Hazard(k) => {
            if k >= map.rooms[i].hazards.len() {
                return Err(EditError::MissingObject);
            }
            map.rooms[i].hazards[k].x = target.x;
            map.rooms[i].hazards[k].y = target.y;
            proof {
                let nr = map.rooms@[i as int];
                assert(nr.hazards@[k as int] == RectData { x: target.x, y: target.y, ..old_room.hazards@[k as int] });
                assert(nr.hazards@ =~= old_room.hazards@.update(k as int, nr.hazards@[k as int]));
                assert(nr@ == room_with_moved(old_room@, selection, target, target));
                assert(map.rooms@ =~= old_rooms.update(i as int, nr));
                lemma_rooms_view_update(old_rooms, i as int, nr);
                assert(map@.rooms =~= old(map)@.rooms.update(i as int, nr@));
                assert(map@ == map_with_room(old(map)@, i as int, room_with_moved(old_room@, selection, target, target)));
            }
        },
        EditorSelection::Checkpoint(k) => {
            if k >= map.rooms[i].checkpoints.len() {
                return Err(EditError::MissingObject);
            }
            map.rooms[i].checkpoints[k].x = target.x;
            map.rooms[i].checkpoints[k].y = target.y;
            proof {
                let nr = map.rooms@[i as int];
                assert(nr.checkpoints@ == old_room.checkpoints@.update(k as int, nr.checkpoints@[k as int]));
                lemma_points_view_update(old_room.checkpoints@, k as int, nr.checkpoints@[k as int]);
                assert(map.rooms@ =~= old_rooms.update(i as int, nr));
                lemma_rooms_view_update(old_rooms, i as int, nr);
                assert(map@.rooms =~= old(map)@.rooms.update(i as int, nr@));
                assert(map@ == map_with_room(old(map)@, i as int, room_with_moved(old_room@, selection, target, target)));
            }
        },
        EditorSelection::SpawnPoint(k) => {
            if k >= map.rooms[i].spawn_points.len() {
                return Err(EditError::MissingObject);
            }
            map.rooms[i].spawn_points[k].x = target.x;
            map.rooms[i].spawn_points[k].y = target.y;
            proof {
                let nr = map.rooms@[i as int];
                assert(nr.spawn_points@ == old_room.spawn_points@.update(k as int, nr.spawn_points@[k as int]));
                lemma_points_view_update(old_room.spawn_points@, k as int, nr.spawn_points@[k as int]);
                assert(map.rooms@ =~= old_rooms.update(i as int, nr));
                lemma_rooms_view_update(old_rooms, i as int, nr);
                assert(map@.rooms =~= old(map)@.rooms.update(i as int, nr@));
                assert(map@ == map_with_room(old(map)@, i as int, room_with_moved(old_room@, selection, target, target)));
            }
        },
        EditorSelection::DashCrystal(k) => {
            if k >= map.rooms[i].dashcrystals.len() {
                return Err(EditError::MissingObject);
            }
            map.rooms[i].dashcrystals[k].x = target.x;
            map.rooms[i].dashcrystals[k].y = target.y;
            proof {
                let nr = map.rooms@[i as int];
                assert(nr.dashcrystals@ == old_room.dashcrystals@.update(k as int, nr.dashcrystals@[k as int]));
                lemma_points_view_update(old_room.dashcrystals@, k as int, nr.dashcrystals@[k as int]);
                assert(map.rooms@ =~= old_rooms.update(i as int, nr));
                lemma_rooms_view_update(old_rooms, i as int, nr);
                assert(map@.rooms =~= old(map)@.rooms.update(i as int, nr@));
                assert(map@ == map_with_room(old(map)@, i as int, room_with_moved(old_room@, selection, target, target)));
            }
        },
        EditorSelection::Spring(k) => {
            if k >= map.rooms[i].springs.len() {
                return Err(EditError::MissingObject);
            }
            let direction = map.rooms[i].springs[k].direction;
            let snapped = snap_spring(target, direction);
            map.rooms[i].springs[k].x = snapped.x;
            map.rooms[i].springs[k].y = snapped.y;
            proof {
                let nr = map.rooms@[i as int];
                assert(nr.springs@ == old_room.springs@.update(k as int, nr.springs@[k as int]));
                lemma_springs_view_update(old_room.springs@, k as int, nr.springs@[k as int]);
                assert(map.rooms@ =~= old_rooms.update(i as int, nr));
                lemma_rooms_view_update(old_rooms, i as int, nr);
                assert(map@.rooms =~= old(map)@.rooms.update(i as int, nr@));
                assert(map@ == map_with_room(old(map)@, i as int, room_with_moved(old_room@, selection, target, snapped)));
            }
        },
        EditorSelection::Exit(k) => {
            if k >= map.rooms[i].exits.len() {
                return Err(EditError::MissingObject);
            }
            map.rooms[i].exits[k].x = target.x;
            map.rooms[i].exits[k].y = target.y;
            proof {
                let nr = map.rooms@[i as int];
                assert(nr.exits@ == old_room.exits@.update(k as int, nr.exits@[k as int]));
                lemma_exits_view_update(old_room.exits@, k as int, nr.exits@[k as int]);
                assert(map.rooms@ =~= old_rooms.update(i as int, nr));
                lemma_rooms_view_update(old_rooms, i as int, nr);
                assert(map@.rooms =~= old(map)@.rooms.update(i as int, nr@));
                assert(map@ == map_with_room(old(map)@, i as int, room_with_moved(old_room@, selection, target, target)));
            }
        },
        EditorSelection::CompletionZone(k) => {
            if k >= map.rooms[i].completion_zones.len() {
                return Err(EditError::MissingObject);
            }
            map.rooms[i].completion_zones[k].x = target.x;
            map.rooms[i].completion_zones[k].y = target.y;
            proof {
                let nr = map.rooms@[i as int];
                assert(nr.completion_zones@ == old_room.completion_zones@.update(k as int, nr.completion_zones@[k as int]));
                assert(map.rooms@ =~= old_rooms.update(i as int, nr));
                lemma_rooms_view_update(old_rooms, i as int, nr);
                assert(map@.rooms =~= old(map)@.rooms.update(i as int, nr@));
                assert(map@ == map_with_room(old(map)@, i as int, room_with_moved(old_room@, selection, target, target)));
            }
        },
        EditorSelection::Grass(k) => {
            if k >= map.rooms[i].grasses.len() {
                return Err(EditError::MissingObject);
            }
            map.rooms[i].grasses[k].x = target.x;
            map.rooms[i].grasses[k].y = target.y;
            proof {
                let nr = map.rooms@[i as int];
                assert(nr.grasses@ == old_room.grasses@.update(k as int, nr.grasses@[k as int]));
                assert(map.rooms@ =~= old_rooms.update(i as int, nr));
                lemma_rooms_view_update(old_rooms, i as int, nr);
                assert(map@.rooms =~= old(map)@.rooms.update(i as int, nr@));
                assert(map@ == map_with_room(old(map)@, i as int, room_with_moved(old_room@, selection, target, target)));
            }
        },
    }
    Ok(())
}


/// Room `r` with the selected object taken out of its list.
pub open spec fn room_without(r: RoomView, selection: EditorSelection) -> RoomView {
    match selection {
        EditorSelection::Collision(i) => RoomView { collision: r.collision.remove(i as int), ..r },
        EditorSelection::Hazard(i) => RoomView { hazards: r.hazards.remove(i as int), ..r },
        EditorSelection::Checkpoint(i) => RoomView { checkpoints: r.checkpoints.remove(i as int), ..r },
        EditorSelection::SpawnPoint(i) => RoomView { spawn_points: r.spawn_points.remove(i as int), ..r },
        EditorSelection::DashCrystal(i) => RoomView { dashcrystals: r.dashcrystals.remove(i as int), ..r },
        EditorSelection::Spring(i) => RoomView { springs: r.springs.remove(i as int), ..r },
        EditorSelection::Exit(i) => RoomView { exits: r.exits.remove(i as int), ..r },
        EditorSelection::CompletionZone(i) => RoomView {
            completion_zones: r.completion_zones.remove(i as int),
            ..r
        },
        EditorSelection::Grass(i) => RoomView { grasses: r.grasses.remove(i as int), ..r },
    }
}

/// The exit leads to the spawn point `spawn_id` of the room `room_id`.
pub open spec fn exit_targets(e: ExitView, room_id: Seq<char>, spawn_id: Seq<char>) -> bool {
    e.target_room == room_id && e.target_spawn == spawn_id
}

pub open spec fn exit_targeting(r: RoomView, room_id: Seq<char>, spawn_id: Seq<char>) -> spec_fn(
    int,
) -> bool {
    |k: int| exit_targets(r.exits[k], room_id, spawn_id)
}

pub open spec fn room_targeting(m: MapView, room_id: Seq<char>, spawn_id: Seq<char>) -> spec_fn(
    int,
) -> bool {
    |i: int|
        first_where(
            m.rooms[i].exits.len() as int,
            exit_targeting(m.rooms[i], room_id, spawn_id),
        ) is Some
}

/// The first exit of the map, rooms taken in order, that leads to the spawn
/// point `spawn_id` of the room `room_id`: its room and its position there.
pub open spec fn targeting_exit(m: MapView, room_id: Seq<char>, spawn_id: Seq<char>) -> Option<
    (int, int),
> {
    match first_where(m.rooms.len() as int, room_targeting(m, room_id, spawn_id)) {
        Some(i) => Some(
            (
                i,
                first_where(
                    m.rooms[i].exits.len() as int,
                    exit_targeting(m.rooms[i], room_id, spawn_id),
                )->0,
            ),
        ),
        None => None,
    }
}

/// What deleting the selected object of room `room_id` does to map `m`: the
/// map without it, or why it stays. A spawn point that is its room's default
/// spawn point, or that an exit leads to, is kept.
pub open spec fn delete_outcome(m: MapView, room_id: Seq<char>, selection: EditorSelection) -> Result<
    MapView,
    EditError,
> {
    match room_position(m.rooms, room_id) {
        None => Err(EditError::MissingRoom),
        Some(p) => {
            let r = m.rooms[p];
            if !selection_exists(r, selection) {
                Err(EditError::MissingObject)
            } else {
                match selection {
                    EditorSelection::SpawnPoint(k) => {
                        let spawn_id = r.spawn_points[k as int].id;
                        if r.default_spawn == spawn_id {
                            Err(EditError::DefaultSpawn)
                        } else {
                            match targeting_exit(m, room_id, spawn_id) {
                                Some((i, e)) => Err(
                                    EditError::TargetedByExit { room: i as usize, exit: e as usize },
                                ),
                                None => Ok(map_with_room(m, p, room_without(r, selection))),
                            }
                        }
                    },
                    _ => Ok(map_with_room(m, p, room_without(r, selection))),
                }
            }
        },
    }
}

/// The first exit of the map that leads to spawn point `spawn_id` of room
/// `room_id`.
#[verifier::loop_isolation(false)]
fn find_targeting_exit(map: &MapFile, room_id: &String, spawn_id: &String) -> (res: Option<
    (usize, usize),
>)
    ensures
        res matches Some((i, e)) ==> targeting_exit(map@, room_id@, spawn_id@) == Some(
            (i as int, e as int),
        ),
        res is None ==> targeting_exit(map@, room_id@, spawn_id@) is None,
{
    let ghost m = map@;
    let ghost pr = room_targeting(m, room_id@, spawn_id@);
    let mut i: usize = 0;
    while i < map.rooms.len()
        invariant
            m == map@,
            pr == room_targeting(m, room_id@, spawn_id@),
            i <= map.rooms@.len(),
            m.rooms.len() == map.rooms@.len(),
            forall|j: int| 0 <= j < i ==> !#[trigger] pr(j),
        decreases map.rooms@.len() - i,
    {
        let room = &map.rooms[i];
        let ghost r = room@;
        let ghost pe = exit_targeting(r, room_id@, spawn_id@);
        assert(m.rooms[i as int] == r);
        let mut k: usize = 0;
        while k < room.exits.len()
            invariant
                r == room@,
                pe == exit_targeting(r, room_id@, spawn_id@),
                k <= room.exits@.len(),
                r.exits.len() == room.exits@.len(),
                forall|j: int| 0 <= j < k ==> !#[trigger] pe(j),
            decreases room.exits@.len() - k,
        {
            assert(r.exits[k as int] == room.exits@[k as int]@);
            if room.exits[k].target_room == *room_id && room.exits[k].target_spawn == *spawn_id {
                proof {
                    lemma_first_where_found(r.exits.len() as int, pe, k as int);
                    lemma_first_where_found(m.rooms.len() as int, pr, i as int);
                }
                return Some((i, k));
            }
            k = k + 1;
        }
        proof {
            lemma_first_where_none(r.exits.len() as int, pe);
        }
        i = i + 1;
    }
    proof {
        lemma_first_where_none(m.rooms.len() as int, pr);
    }
    None
}

/// Deletes the selected object of the room with the given id. A spawn point
/// is kept when it is its room's default spawn point or an exit leads to it.
#[verifier::spinoff_prover]
pub fn delete_selection(map: &mut MapFile, room_id: &str, selection: EditorSelection) -> (res: Result<
    (),
    EditError,
>)
    ensures
        match delete_outcome(old(map)@, room_id@, selection) {
            Ok(m2) => res is Ok && final(map)@ == m2,
            Err(e) => res == Err::<(), EditError>(e) && final(map)@ == old(map)@,
        },
{
    let key = String::from_str(room_id);
    let i = match find_room_index(&map.rooms, &key) {
        Some(i) => i,
        None => return Err(EditError::MissingRoom),
    };
    let ghost old_rooms = map.rooms@;
    let ghost old_room = map.rooms@[i as int];
    assert(old(map)@.rooms[i as int] == old_room@);
    match selection {
        EditorSelection::SpawnPoint(k) => {
            if k >= map.rooms[i].spawn_points.len() {
                return Err(EditError::MissingObject);
            }
            let spawn_id = map.rooms[i].spawn_points[k].id.clone();
            assert(old_room@.spawn_points[k as int].id == spawn_id@);
            if map.rooms[i].default_spawn == spawn_id {
                return Err(EditError::DefaultSpawn);
            }
            match find_targeting_exit(map, &key, &spawn_id) {
                Some((ri, ei)) => {
                    return Err(EditError::TargetedByExit { room: ri, exit: ei });
                },
                None => {},
            }
            map.rooms[i].spawn_points.remove(k);
            proof {
                let nr = map.rooms@[i as int];
                lemma_points_view_remove(old_room.spawn_points@, k as int);
                assert(nr@ == room_without(old_room@, selection));
                assert(map.rooms@ =~= old_rooms.update(i as int, nr));
                lemma_rooms_view_update(old_rooms, i as int, nr);
                assert(map@.rooms =~= old(map)@.rooms.update(i as int, nr@));
            }
        },
        EditorSelection::Collision(k) => {
            if k >= map.rooms[i].collision.len() {
                return Err(EditError::MissingObject);
            }
            map.rooms[i].collision.remove(k);
            proof {
                let nr = map.rooms@[i as int];
                lemma_collisions_view_remove(old_room.collision@, k as int);
                assert(nr@ == room_without(old_room@, selection));
                assert(map.rooms@ =~= old_rooms.update(i as int, nr));
                lemma_rooms_view_update(old_rooms, i as int, nr);
                assert(map@.rooms =~= old(map)@.rooms.update(i as int, nr@));
            }
        },
        EditorSelection::Hazard(k) => {
            if k >= map.rooms[i].hazards.len() {
                return Err(EditError::MissingObject);
            }
            map.rooms[i].hazards.remove(k);
            proof {
                let nr = map.rooms@[i as int];
                assert(nr@ == room_without(old_room@, selection));
                assert(map.rooms@ =~= old_rooms.update(i as int, nr));
                lemma_rooms_view_update(old_rooms, i as int, nr);
                assert(map@.rooms =~= old(map)@.rooms.update(i as int, nr@));
            }
        },
        EditorSelection::Checkpoint(k) => {
            if k >= map.rooms[i].checkpoints.len() {
                return Err(EditError::MissingObject);
            }
            map.rooms[i].checkpoints.remove(k);
            proof {
                let nr = map.rooms@[i as int];
                lemma_points_view_remove(old_room.checkpoints@, k as int);
                assert(nr@ == room_without(old_room@, selection));
                assert(map.rooms@ =~= old_rooms.update(i as int, nr));
                lemma_rooms_view_update(old_rooms, i as int, nr);
                assert(map@.rooms =~= old(map)@.rooms.update(i as int, nr@));
            }
        },
        EditorSelection::DashCrystal(k) => {
            if k >= map.rooms[i].dashcrystals.len() {
                return Err(EditError::MissingObject);
            }
            map.rooms[i].dashcrystals.remove(k);
            proof {
                let nr = map.rooms@[i as int];
                lemma_points_view_remove(old_room.dashcrystals@, k as int);
                assert(nr@ == room_without(old_room@, selection));
                assert(map.rooms@ =~= old_rooms.update(i as int, nr));
                lemma_rooms_view_update(old_rooms, i as int, nr);
                assert(map@.rooms =~= old(map)@.rooms.update(i as int, nr@));
            }
        },
        EditorSelection::Spring(k) => {
            if k >= map.rooms[i].springs.len() {
                return Err(EditError::MissingObject);
            }
            map.rooms[i].springs.remove(k);
            proof {
                let nr = map.rooms@[i as int];
                lemma_springs_view_remove(old_room.springs@, k as int);
                assert(nr@ == room_without(old_room@, selection));
                assert(map.rooms@ =~= old_rooms.update(i as int, nr));
                lemma_rooms_view_update(old_rooms, i as int, nr);
                assert(map@.rooms =~= old(map)@.rooms.update(i as int, nr@));
            }
        },
        EditorSelection::Exit(k) => {
            if k >= map.rooms[i].exits.len() {
                return Err(EditError::MissingObject);
            }
            map.rooms[i].exits.remove(k);
            proof {
                let nr = map.rooms@[i as int];
                lemma_exits_view_remove(old_room.exits@, k as int);
                assert(nr@ == room_without(old_room@, selection));
                assert(map.rooms@ =~= old_rooms.update(i as int, nr));
                lemma_rooms_view_update(old_rooms, i as int, nr);
                assert(map@.rooms =~= old(map)@.rooms.update(i as int, nr@));
            }
        },
        EditorSelection::CompletionZone(k) => {
            if k >= map.rooms[i].completion_zones.len() {
                return Err(EditError::MissingObject);
            }
            map.rooms[i].completion_zones.remove(k);
            proof {
                let nr = map.rooms@[i as int];
                assert(nr@ == room_without(old_room@, selection));
                assert(map.rooms@ =~= old_rooms.update(i as int, nr));
                lemma_rooms_view_update(old_rooms, i as int, nr);
                assert(map@.rooms =~= old(map)@.rooms.update(i as int, nr@));
            }
        },
        EditorSelection::Grass(k) => {
            if k >= map.rooms[i].grasses.len() {
                return Err(EditError::MissingObject);
            }
            map.rooms[i].grasses.remove(k);
            proof {
                let nr = map.rooms@[i as int];
                assert(nr@ == room_without(old_room@, selection));
                assert(map.rooms@ =~= old_rooms.update(i as int, nr));
                lemma_rooms_view_update(old_rooms, i as int, nr);
                assert(map@.rooms =~= old(map)@.rooms.update(i as int, nr@));
            }
        },
    }
    Ok(())
}


proof fn lemma_room_without_valid(m: MapView, r: RoomView, selection: EditorSelection)
    requires
        room_valid(m, r),
        selection_exists(r, selection),
        !(selection is SpawnPoint),
    ensures
        room_valid(m, room_without(r, selection)),
        room_without(r, selection).id == r.id,
        room_without(r, selection).spawn_points == r.spawn_points,
{
    let r2 = room_without(r, selection);
    assert(r2.spawn_points == r.spawn_points);
    let j = choose|j: int| 0 <= j < r.spawn_points.len() && r.spawn_points[j].id == r.default_spawn;
    assert(r2.spawn_points[j].id == r2.default_spawn);
    match selection {
        EditorSelection::Collision(i) => {
            assert forall|k: int| 0 <= k < r2.collision.len() implies collision_fault(
                #[trigger] r2.collision[k],
            ) is None by {
                if k < i {
                    assert(r2.collision[k] == r.collision[k]);
                } else {
                    assert(r2.collision[k] == r.collision[k + 1]);
                }
            }
        },
        EditorSelection::Hazard(i) => {
            assert forall|k: int| 0 <= k < r2.hazards.len() implies !dims_bad(
                #[trigger] r2.hazards[k].w,
                r2.hazards[k].h,
            ) by {
                if k < i {
                    assert(r2.hazards[k] == r.hazards[k]);
                } else {
                    assert(r2.hazards[k] == r.hazards[k + 1]);
                }
            }
        },
        EditorSelection::Exit(i) => {
            assert forall|k: int| 0 <= k < r2.exits.len() implies exit_fault(
                m,
                #[trigger] r2.exits[k],
            ) is None by {
                if k < i {
                    assert(r2.exits[k] == r.exits[k]);
                } else {
                    assert(r2.exits[k] == r.exits[k + 1]);
                }
            }
        },
        EditorSelection::CompletionZone(i) => {
            assert forall|k: int| 0 <= k < r2.completion_zones.len() implies !dims_bad(
                #[trigger] r2.completion_zones[k].w,
                r2.completion_zones[k].h,
            ) by {
                if k < i {
                    assert(r2.completion_zones[k] == r.completion_zones[k]);
                } else {
                    assert(r2.completion_zones[k] == r.completion_zones[k + 1]);
                }
            }
        },
        _ => {},
    }
}

/// Deleting an object from a map that passes the save check gives a map that
/// still passes it: the default spawn point of a room, and every spawn point
/// an exit leads to, are never deleted.
pub proof fn lemma_delete_keeps_map_valid(m: MapView, room_id: Seq<char>, selection: EditorSelection)
    requires
        map_valid(m),
        delete_outcome(m, room_id, selection) is Ok,
    ensures
        map_valid(delete_outcome(m, room_id, selection)->Ok_0),
{
    lemma_first_index_some(room_ids(m.rooms), room_id);
    let p = room_position(m.rooms, room_id)->0;
    let r = m.rooms[p];
    assert(room_valid(m, r));
    let r2 = room_without(r, selection);
    match selection {
        EditorSelection::SpawnPoint(k) => {
            let spawn_id = r.spawn_points[k as int].id;
            let m2 = map_with_room(m, p, r2);
            assert(targeting_exit(m, room_id, spawn_id) is None);
            lemma_first_where_none(m.rooms.len() as int, room_targeting(m, room_id, spawn_id));
            // Every spawn id other than the deleted one is still had by the room.
            assert forall|sid: Seq<char>| sid != spawn_id && #[trigger] has_spawn(r, sid) implies has_spawn(
                r2,
                sid,
            ) by {
                let j = choose|j: int| 0 <= j < r.spawn_points.len() && r.spawn_points[j].id == sid;
                if j < k {
                    assert(r2.spawn_points[j] == r.spawn_points[j]);
                } else {
                    assert(j != k);
                    assert(r2.spawn_points[j - 1] == r.spawn_points[j]);
                }
            }
            assert(has_spawn(r2, r2.default_spawn));
            assert(room_ids(m2.rooms) =~= room_ids(m.rooms)) by {
                assert forall|t: int| 0 <= t < m.rooms.len() implies room_ids(m2.rooms)[t] == room_ids(
                    m.rooms,
                )[t] by {}
            }
            // No exit of any room resolves to the deleted spawn point.
            assert forall|i: int, e: int|
                0 <= i < m.rooms.len() && 0 <= e < m.rooms[i].exits.len() implies exit_fault(
                m2,
                #[trigger] m.rooms[i].exits[e],
            ) is None by {
                let ex = m.rooms[i].exits[e];
                assert(room_valid(m, m.rooms[i]));
                assert(exit_fault(m, ex) is None);
                assert(!room_targeting(m, room_id, spawn_id)(i));
                lemma_first_where_none(
                    m.rooms[i].exits.len() as int,
                    exit_targeting(m.rooms[i], room_id, spawn_id),
                );
                assert(!exit_targeting(m.rooms[i], room_id, spawn_id)(e));
                lemma_first_index_some(room_ids(m.rooms), ex.target_room);
                let t = room_position(m.rooms, ex.target_room)->0;
                if t == p {
                    assert(room_ids(m.rooms)[t] == ex.target_room);
                    assert(ex.target_room == room_id);
                    assert(ex.target_spawn != spawn_id);
                    assert(has_spawn(r, ex.target_spawn));
                    assert(has_spawn(r2, ex.target_spawn));
                }
            }
            assert forall|i: int| 0 <= i < m2.rooms.len() implies room_valid(
                m2,
                #[trigger] m2.rooms[i],
            ) by {
                let ri = m2.rooms[i];
                assert(room_valid(m, m.rooms[i]));
                assert forall|e: int| 0 <= e < ri.exits.len() implies exit_fault(
                    m2,
                    #[trigger] ri.exits[e],
                ) is None by {
                    assert(ri.exits[e] == m.rooms[i].exits[e]);
                }
            }
        },
        _ => {
            lemma_room_without_valid(m, r, selection);
            lemma_valid_after_room_update(m, p, r2);
        },
    }
}


/// Moving an object of a map that passes the save check gives a map that
/// still passes it: only positions change, never sizes, ids or targets.
pub proof fn lemma_move_keeps_map_valid(
    m: MapView,
    p: int,
    selection: EditorSelection,
    target: Point,
    spring_target: Point,
)
    requires
        map_valid(m),
        0 <= p < m.rooms.len(),
        selection_exists(m.rooms[p], selection),
    ensures
        map_valid(map_with_room(m, p, room_with_moved(m.rooms[p], selection, target, spring_target))),
{
    let r = m.rooms[p];
    assert(room_valid(m, r));
    let r2 = room_with_moved(r, selection, target, spring_target);
    assert forall|sid: Seq<char>| #[trigger] has_spawn(r, sid) implies has_spawn(r2, sid) by {
        let j = choose|j: int| 0 <= j < r.spawn_points.len() && r.spawn_points[j].id == sid;
        assert(r2.spawn_points[j].id == sid);
    }
    assert(has_spawn(r2, r2.default_spawn));
    match selection {
        EditorSelection::Collision(i) => {
            assert forall|k: int| 0 <= k < r2.collision.len() implies collision_fault(
                #[trigger] r2.collision[k],
            ) is None by {
                assert(collision_fault(r.collision[k]) is None);
            }
        },
        EditorSelection::Hazard(i) => {
            assert forall|k: int| 0 <= k < r2.hazards.len() implies !dims_bad(
                #[trigger] r2.hazards[k].w,
                r2.hazards[k].h,
            ) by {
                assert(!dims_bad(r.hazards[k].w, r.hazards[k].h));
            }
        },
        EditorSelection::Exit(i) => {
            assert forall|k: int| 0 <= k < r2.exits.len() implies exit_fault(
                m,
                #[trigger] r2.exits[k],
            ) is None by {
                assert(exit_fault(m, r.exits[k]) is None);
            }
        },
        EditorSelection::CompletionZone(i) => {
            assert forall|k: int| 0 <= k < r2.completion_zones.len() implies !dims_bad(
                #[trigger] r2.completion_zones[k].w,
                r2.completion_zones[k].h,
            ) by {
                assert(!dims_bad(r.completion_zones[k].w, r.completion_zones[k].h));
            }
        },
        _ => {},
    }
    assert(room_valid(m, r2));
    lemma_valid_after_room_update(m, p, r2);
}


/// The position of an exit side in the order left, right, top, bottom.
pub open spec fn side_index(side: ExitSide) -> int {
    match side {
        ExitSide::Left => 0,
        ExitSide::Right => 1,
        ExitSide::Top => 2,
        ExitSide::Bottom => 3,
    }
}

/// The exit side `direction` steps after `side` in the order left, right,
/// top, bottom, wrapping round either way.
pub open spec fn cycled_side(side: ExitSide, direction: int) -> ExitSide {
    let next = (side_index(side) + direction) % 4;
    if next == 0 {
        ExitSide::Left
    } else if next == 1 {
        ExitSide::Right
    } else if next == 2 {
        ExitSide::Top
    } else {
        ExitSide::Bottom
    }
}

/// The exit side `direction` steps after `side`, wrapping round.
pub fn cycle_exit_side(side: ExitSide, direction: i32) -> (res: ExitSide)
    requires
        side_index(side) + direction <= i32::MAX,
    ensures
        res == cycled_side(side, direction as int),
{
    let current_index: i32 = match side {
        ExitSide::Left => 0,
        ExitSide::Right => 1,
        ExitSide::Top => 2,
        ExitSide::Bottom => 3,
    };
    let sum: i32 = current_index + direction;
    let next_index: i32 = if sum >= 0 {
        sum % 4
    } else {
        let magnitude: i64 = -(sum as i64);
        let m: i64 = magnitude % 4;
        assert(m == 0 ==> sum % 4 == 0) by (nonlinear_arith)
            requires
                magnitude == -sum,
                m == magnitude % 4,
                sum < 0,
        ;
        assert(m != 0 ==> sum % 4 == 4 - m) by (nonlinear_arith)
            requires
                magnitude == -sum,
                m == magnitude % 4,
                sum < 0,
        ;
        if m == 0 {
            0
        } else {
            (4 - m) as i32
        }
    };
    assert(next_index == (side_index(side) + direction) % 4);
    if next_index == 0 {
        ExitSide::Left
    } else if next_index == 1 {
        ExitSide::Right
    } else if next_index == 2 {
        ExitSide::Top
    } else {
        ExitSide::Bottom
    }
}


/// The spawn point that an exit retargeted to room `r` leads to: the room's
/// default spawn point when the room has it or has no spawn points at all,
/// else its first spawn point.
pub open spec fn preferred_spawn(r: RoomView) -> Seq<char> {
    if has_spawn(r, r.default_spawn) || r.spawn_points.len() == 0 {
        r.default_spawn
    } else {
        r.spawn_points[0].id
    }
}

/// The spawn ids an exit into room `r` can be cycled through: the room's
/// spawn point ids in order, or its default spawn id when it has none.
pub open spec fn spawn_choices(r: RoomView) -> Seq<Seq<char>> {
    if r.spawn_points.len() == 0 {
        seq![r.default_spawn]
    } else {
        point_ids(r.spawn_points)
    }
}

/// The spawn id one step before (`previous`) or after `spawn` among the
/// choices of room `r`; an id that is not among them counts as the first.
pub open spec fn stepped_spawn(r: RoomView, spawn: Seq<char>, previous: bool) -> Seq<char> {
    let choices = spawn_choices(r);
    let n = choices.len() as int;
    let current = match first_index(choices, spawn) {
        Some(c) => c,
        None => 0,
    };
    if previous {
        choices[(current + n - 1) % n]
    } else {
        choices[(current + 1) % n]
    }
}

/// The shortcuts of the exit editor pressed in one frame.
#[derive(Clone, Copy, Debug, PartialEq, Eq, Structural)]
pub struct ExitShortcuts {
    pub cycle_room: bool,
    pub previous_spawn: bool,
    pub next_spawn: bool,
    pub previous_side: bool,
    pub next_side: bool,
    pub toggle_momentum: bool,
}

pub open spec fn any_exit_shortcut(keys: ExitShortcuts) -> bool {
    keys.cycle_room || keys.previous_spawn || keys.next_spawn || keys.previous_side
        || keys.next_side || keys.toggle_momentum
}

/// The room an exit leads to after the room shortcut: the room after its
/// current target in map order (the first room when its target is missing),
/// wrapping round, entered at that room's preferred spawn point.
pub open spec fn cycled_target(m: MapView, e: ExitView) -> (Seq<char>, Seq<char>) {
    let next = cycled_index(m, e);
    (room_ids(m.rooms)[next], preferred_spawn(m.rooms[next]))
}

/// The position of the room that the room shortcut moves exit `e` to.
pub open spec fn cycled_index(m: MapView, e: ExitView) -> int {
    let current = match first_index(room_ids(m.rooms), e.target_room) {
        Some(c) => c,
        None => 0,
    };
    (current + 1) % (m.rooms.len() as int)
}

/// The target room and spawn of `e` once the room shortcut has been applied.
pub open spec fn target_after_room_key(m: MapView, e: ExitView, keys: ExitShortcuts) -> (
    Seq<char>,
    Seq<char>,
) {
    if keys.cycle_room {
        cycled_target(m, e)
    } else {
        (e.target_room, e.target_spawn)
    }
}

/// A spawn shortcut was pressed but the exit's target room does not exist.
pub open spec fn spawn_key_without_room(m: MapView, e: ExitView, keys: ExitShortcuts) -> bool {
    (keys.previous_spawn || keys.next_spawn) && room_position(
        m.rooms,
        target_after_room_key(m, e, keys).0,
    ) is None
}

/// Exit `e` after the shortcuts: room, then spawn, then side (previous, then
/// next), then the momentum flag.
pub open spec fn edited_exit(m: MapView, e: ExitView, keys: ExitShortcuts) -> ExitView {
    let (target_room, spawn) = target_after_room_key(m, e, keys);
    let target_spawn = if (keys.previous_spawn || keys.next_spawn) && room_position(
        m.rooms,
        target_room,
    ) is Some {
        stepped_spawn(m.rooms[room_position(m.rooms, target_room)->0], spawn, keys.previous_spawn)
    } else {
        spawn
    };
    let side1 = if keys.previous_side {
        cycled_side(e.side, -1)
    } else {
        e.side
    };
    let side2 = if keys.next_side {
        cycled_side(side1, 1)
    } else {
        side1
    };
    ExitView {
        target_room,
        target_spawn,
        side: side2,
        preserve_momentum: if keys.toggle_momentum {
            !e.preserve_momentum
        } else {
            e.preserve_momentum
        },
        ..e
    }
}

/// What the exit shortcuts did.
#[derive(Clone, Copy, Debug, PartialEq, Eq, Structural)]
pub enum ExitEditOutcome {
    /// No exit shortcut was pressed.
    NoShortcut,
    /// No room has the active room's id.
    MissingActiveRoom,
    /// The selected exit no longer exists.
    MissingExit,
    /// Only spawn shortcuts were pressed and the exit's target room does not
    /// exist; nothing changed.
    MissingTargetRoom,
    /// The exit was changed; `target_room_missing` tells that a spawn
    /// shortcut found no target room.
    Changed { target_room_missing: bool },
}

/// The preferred spawn point of a room (see `preferred_spawn`).
pub fn preferred_spawn_for_room(room: &RoomData) -> (res: String)
    ensures
        res@ == preferred_spawn(room@),
{
    let found = find_point_index(&room.spawn_points, &room.default_spawn);
    proof {
        lemma_first_index_some(point_ids(points_view(room.spawn_points@)), room.default_spawn@);
        if found is Some {
            let j = found->0 as int;
            assert(point_ids(points_view(room.spawn_points@))[j] == room@.spawn_points[j].id);
        } else {
            assert forall|j: int| 0 <= j < room@.spawn_points.len() implies room@.spawn_points[j].id
                != room@.default_spawn by {
                assert(point_ids(points_view(room.spawn_points@))[j] == room@.spawn_points[j].id);
            }
        }
    }
    if found.is_some() || room.spawn_points.len() == 0 {
        room.default_spawn.clone()
    } else {
        room.spawn_points[0].id.clone()
    }
}

/// The spawn id one step before or after `spawn` among the choices of a room
/// (see `stepped_spawn`).
pub fn cycle_spawn_choice(room: &RoomData, spawn: &String, previous: bool) -> (res: String)
    ensures
        res@ == stepped_spawn(room@, spawn@, previous),
{
    let ghost choices = spawn_choices(room@);
    if room.spawn_points.len() == 0 {
        proof {
            lemma_first_index_some(choices, spawn@);
        }
        return room.default_spawn.clone();
    }
    assert(choices == point_ids(points_view(room.spawn_points@)));
    let n = room.spawn_points.len();
    let current = match find_point_index(&room.spawn_points, spawn) {
        Some(c) => c,
        None => 0,
    };
    let next = if previous {
        if current == 0 {
            n - 1
        } else {
            current - 1
        }
    } else {
        if current + 1 == n {
            0
        } else {
            current + 1
        }
    };
    proof {
        lemma_first_index_some(choices, spawn@);
        let ni = n as int;
        let ci = current as int;
        if previous {
            if current == 0 {
                lemma_small_mod((ni - 1) as nat, ni as nat);
            } else {
                lemma_mod_add_multiples_vanish(ci - 1, ni);
                lemma_small_mod((ci - 1) as nat, ni as nat);
            }
        } else {
            if ci + 1 == ni {
                lemma_mod_self_0(ni);
            } else {
                lemma_small_mod((ci + 1) as nat, ni as nat);
            }
        }
    }
    assert(choices[next as int] == room.spawn_points@[next as int].id@);
    room.spawn_points[next].id.clone()
}

/// The target room and spawn of `e` after the shortcuts, and whether a spawn
/// shortcut found no target room.
fn edited_target(map: &MapFile, e: &RoomExitData, keys: ExitShortcuts) -> (res: (String, String, bool))
    requires
        map@.rooms.len() > 0,
    ensures
        res.0@ == edited_exit(map@, e@, keys).target_room,
        res.1@ == edited_exit(map@, e@, keys).target_spawn,
        res.2 == spawn_key_without_room(map@, e@, keys),
{
    let ghost m = map@;
    let mut target_room = e.target_room.clone();
    let mut target_spawn = e.target_spawn.clone();
    let mut missing = false;
    if keys.cycle_room {
        let found = find_room_index(&map.rooms, &target_room);
        proof {
            lemma_first_index_some(room_ids(m.rooms), target_room@);
            assert(room_ids(m.rooms).len() == map.rooms@.len());
            if found is Some {
                assert(is_first_index(room_ids(m.rooms), target_room@, found->0 as int));
            }
        }
        let current = match found {
            Some(c) => c,
            None => 0,
        };
        let room_count = map.rooms.len();
        assert(current < room_count);
        proof {
            assert(room_ids(m.rooms).len() == map.rooms@.len());
            let ni = m.rooms.len() as int;
            let ci = current as int;
            if ci + 1 == ni {
                lemma_mod_self_0(ni);
            } else {
                lemma_small_mod((ci + 1) as nat, ni as nat);
            }
        }
        let next = if current + 1 == room_count {
            0
        } else {
            current + 1
        };
        assert(next == (current + 1) % (m.rooms.len() as int));
        assert(room_ids(m.rooms)[next as int] == map.rooms@[next as int].id@);
        assert(m.rooms[next as int] == map.rooms@[next as int]@);
        target_room = map.rooms[next].id.clone();
        target_spawn = preferred_spawn_for_room(&map.rooms[next]);
    }
    assert(target_room@ == target_after_room_key(m, e@, keys).0);
    assert(target_spawn@ == target_after_room_key(m, e@, keys).1);
    if keys.previous_spawn || keys.next_spawn {
        match find_room_index(&map.rooms, &target_room) {
            Some(t) => {
                assert(m.rooms[t as int] == map.rooms@[t as int]@);
                target_spawn = cycle_spawn_choice(&map.rooms[t], &target_spawn, keys.previous_spawn);
            },
            None => {
                missing = true;
            },
        }
    }
    (target_room, target_spawn, missing)
}

/// What the exit shortcuts do to exit `exit_index` of room `room_id` of map
/// `m`: the outcome, and the map afterwards.
pub open spec fn exit_edit(m: MapView, room_id: Seq<char>, exit_index: usize, keys: ExitShortcuts) -> (
    ExitEditOutcome,
    MapView,
) {
    if !any_exit_shortcut(keys) {
        (ExitEditOutcome::NoShortcut, m)
    } else {
        match room_position(m.rooms, room_id) {
            None => (ExitEditOutcome::MissingActiveRoom, m),
            Some(p) => {
                let r = m.rooms[p];
                if exit_index >= r.exits.len() {
                    (ExitEditOutcome::MissingExit, m)
                } else {
                    let e = r.exits[exit_index as int];
                    let missing = spawn_key_without_room(m, e, keys);
                    if !keys.cycle_room && !keys.previous_side && !keys.next_side && !keys.toggle_momentum
                        && missing {
                        (ExitEditOutcome::MissingTargetRoom, m)
                    } else {
                        (
                            ExitEditOutcome::Changed { target_room_missing: missing },
                            map_with_room(
                                m,
                                p,
                                RoomView {
                                    exits: r.exits.update(exit_index as int, edited_exit(m, e, keys)),
                                    ..r
                                },
                            ),
                        )
                    }
                }
            },
        }
    }
}

/// Applies the exit shortcuts to exit `exit_index` of the active room.
#[verifier::spinoff_prover]
#[verifier::rlimit(40)]
pub fn edit_selected_exit(map: &mut MapFile, active_room_id: &str, exit_index: usize, keys: ExitShortcuts) -> (res:
    ExitEditOutcome)
    ensures
        (res, final(map)@) == exit_edit(old(map)@, active_room_id@, exit_index, keys),
        !any_exit_shortcut(keys) ==> res == ExitEditOutcome::NoShortcut && final(map)@ == old(map)@,
        any_exit_shortcut(keys) ==> match room_position(old(map)@.rooms, active_room_id@) {
            None => res == ExitEditOutcome::MissingActiveRoom && final(map)@ == old(map)@,
            Some(p) => {
                let r = old(map)@.rooms[p];
                if exit_index >= r.exits.len() {
                    res == ExitEditOutcome::MissingExit && final(map)@ == old(map)@
                } else {
                    let e = r.exits[exit_index as int];
                    let missing = spawn_key_without_room(old(map)@, e, keys);
                    if !keys.cycle_room && !keys.previous_side && !keys.next_side
                        && !keys.toggle_momentum && missing {
                        res == ExitEditOutcome::MissingTargetRoom && final(map)@ == old(map)@
                    } else {
                        &&& res == ExitEditOutcome::Changed { target_room_missing: missing }
                        &&& final(map)@ == map_with_room(
                            old(map)@,
                            p,
                            RoomView {
                                exits: r.exits.update(
                                    exit_index as int,
                                    edited_exit(old(map)@, e, keys),
                                ),
                                ..r
                            },
                        )
                    }
                }
            },
        },
{
    if !(keys.cycle_room || keys.previous_spawn || keys.next_spawn || keys.previous_side
        || keys.next_side || keys.toggle_momentum) {
        return ExitEditOutcome::NoShortcut;
    }
    let key = String::from_str(active_room_id);
    let p = match find_room_index(&map.rooms, &key) {
        Some(p) => p,
        None => return ExitEditOutcome::MissingActiveRoom,
    };
    let ghost m = map@;
    let ghost old_rooms = map.rooms@;
    let ghost old_room = map.rooms@[p as int];
    assert(m.rooms[p as int] == old_room@);
    if exit_index >= map.rooms[p].exits.len() {
        return ExitEditOutcome::MissingExit;
    }
    let ghost e = old_room@.exits[exit_index as int];
    assert(e == map.rooms@[p as int].exits@[exit_index as int]@);
    let (target_room, target_spawn, missing) = edited_target(map, &map.rooms[p].exits[exit_index], keys);
    let mut side = map.rooms[p].exits[exit_index].side;
    let mut preserve_momentum = map.rooms[p].exits[exit_index].preserve_momentum;
    let mut changed = keys.cycle_room || ((keys.previous_spawn || keys.next_spawn) && !missing);
    if keys.previous_side {
        side = cycle_exit_side(side, -1);
        changed = true;
    }
    if keys.next_side {
        side = cycle_exit_side(side, 1);
        changed = true;
    }
    if keys.toggle_momentum {
        preserve_momentum = !preserve_momentum;
        changed = true;
    }
    if !changed {
        return ExitEditOutcome::MissingTargetRoom;
    }
    map.rooms[p].exits[exit_index].target_room = target_room;
    map.rooms[p].exits[exit_index].target_spawn = target_spawn;
    map.rooms[p].exits[exit_index].side = side;
    map.rooms[p].exits[exit_index].preserve_momentum = preserve_momentum;
    proof {
        let nr = map.rooms@[p as int];
        let ne = nr.exits@[exit_index as int];
        assert(ne@ == edited_exit(m, e, keys));
        assert(nr.exits@ =~= old_room.exits@.update(exit_index as int, ne));
        lemma_exits_view_update(old_room.exits@, exit_index as int, ne);
        assert(nr@ == RoomView { exits: old_room@.exits.update(exit_index as int, edited_exit(m, e, keys)), ..old_room@ });
        assert(map.rooms@ =~= old_rooms.update(p as int, nr));
        lemma_rooms_view_update(old_rooms, p as int, nr);
        assert(map@.rooms =~= m.rooms.update(p as int, nr@));
    }
    ExitEditOutcome::Changed { target_room_missing: missing }
}


/// Editing an exit of a map that passes the save check with the exit
/// shortcuts gives a map that still passes it: the exit keeps leading to a
/// room and one of that room's spawn points. Left out: a room shortcut, with
/// no spawn shortcut, onto a room that shares its id with an earlier room,
/// where the exit can end up naming a spawn point of the later room that the
/// earlier one lacks.
pub proof fn lemma_exit_edit_keeps_map_valid(m: MapView, p: int, k: int, keys: ExitShortcuts)
    requires
        map_valid(m),
        0 <= p < m.rooms.len(),
        0 <= k < m.rooms[p].exits.len(),
        keys.cycle_room && !(keys.previous_spawn || keys.next_spawn) ==> room_position(
            m.rooms,
            room_ids(m.rooms)[cycled_index(m, m.rooms[p].exits[k])],
        ) == Some(cycled_index(m, m.rooms[p].exits[k])),
    ensures
        map_valid(
            map_with_room(
                m,
                p,
                RoomView {
                    exits: m.rooms[p].exits.update(k, edited_exit(m, m.rooms[p].exits[k], keys)),
                    ..m.rooms[p]
                },
            ),
        ),
{
    let r = m.rooms[p];
    assert(room_valid(m, r));
    let e = r.exits[k];
    assert(exit_fault(m, e) is None);
    let e2 = edited_exit(m, e, keys);
    let r2 = RoomView { exits: r.exits.update(k, e2), ..r };
    let ids = room_ids(m.rooms);
    let (target_room, spawn) = target_after_room_key(m, e, keys);
    lemma_first_index_some(ids, e.target_room);
    if keys.cycle_room {
        let next = cycled_index(m, e);
        assert(0 <= next < m.rooms.len());
        assert(ids[next] == target_room);
    }
    lemma_first_index_some(ids, target_room);
    let t = room_position(m.rooms, target_room)->0;
    assert(room_valid(m, m.rooms[t]));
    if keys.previous_spawn || keys.next_spawn {
        let rt = m.rooms[t];
        let choices = spawn_choices(rt);
        assert(has_spawn(rt, rt.default_spawn));
        assert(rt.spawn_points.len() > 0);
        let n = choices.len() as int;
        lemma_first_index_some(choices, spawn);
        let current = match first_index(choices, spawn) {
            Some(c) => c,
            None => 0,
        };
        let idx = if keys.previous_spawn {
            (current + n - 1) % n
        } else {
            (current + 1) % n
        };
        assert(0 <= idx < n);
        assert(choices[idx] == rt.spawn_points[idx].id);
        assert(has_spawn(rt, e2.target_spawn));
    } else if keys.cycle_room {
        let next = cycled_index(m, e);
        assert(t == next);
        assert(has_spawn(m.rooms[next], m.rooms[next].default_spawn));
    }
    assert(exit_fault(m, e2) is None);
    assert forall|j: int| 0 <= j < r2.exits.len() implies exit_fault(m, #[trigger] r2.exits[j]) is None by {
        if j != k {
            assert(r2.exits[j] == r.exits[j]);
        }
    }
    let w = choose|w: int| 0 <= w < r.spawn_points.len() && r.spawn_points[w].id == r.default_spawn;
    assert(r2.spawn_points[w].id == r2.default_spawn);
    assert(room_valid(m, r2));
    lemma_valid_after_room_update(m, p, r2);
}


/// The canonical form of a collision's art tag: a tag that stands for a
/// tileset becomes that tileset's name; other tags, and no tag, are kept.
pub open spec fn normalized_art_tag(tag: Option<Seq<char>>) -> Option<Seq<char>> {
    match tag {
        Some(t) => match normalized_tag(t) {
            Some(n) => Some(tag_name(n)),
            None => Some(t),
        },
        None => None,
    }
}

pub open spec fn normalized_collision(c: CollisionView) -> CollisionView {
    CollisionView { art_tag: normalized_art_tag(c.art_tag), ..c }
}

pub open spec fn normalized_room(r: RoomView) -> RoomView {
    RoomView { collision: r.collision.map_values(|c: CollisionView| normalized_collision(c)), ..r }
}

/// `m` with every collision's art tag in canonical form.
pub open spec fn normalized_map(m: MapView) -> MapView {
    MapView { rooms: m.rooms.map_values(|r: RoomView| normalized_room(r)), ..m }
}

pub open spec fn tag_changes(c: CollisionView) -> nat {
    if normalized_art_tag(c.art_tag) != c.art_tag {
        1
    } else {
        0
    }
}

/// How many of the collisions get a different art tag when normalised.
pub open spec fn collision_changes(cs: Seq<CollisionView>) -> nat
    decreases cs.len(),
{
    if cs.len() == 0 {
        0
    } else {
        collision_changes(cs.drop_last()) + tag_changes(cs.last())
    }
}

/// How many collisions of the rooms get a different art tag when normalised.
pub open spec fn room_changes(rooms: Seq<RoomView>) -> nat
    decreases rooms.len(),
{
    if rooms.len() == 0 {
        0
    } else {
        room_changes(rooms.drop_last()) + collision_changes(rooms.last().collision)
    }
}

proof fn lemma_collision_changes_step(cs: Seq<CollisionView>, k: int)
    requires
        0 <= k < cs.len(),
    ensures
        collision_changes(cs.take(k + 1)) == collision_changes(cs.take(k)) + tag_changes(cs[k]),
{
    assert(cs.take(k + 1).drop_last() =~= cs.take(k));
}

proof fn lemma_collision_changes_prefix(cs: Seq<CollisionView>, k: int)
    requires
        0 <= k <= cs.len(),
    ensures
        collision_changes(cs.take(k)) <= collision_changes(cs),
    decreases cs.len() - k,
{
    if k < cs.len() {
        lemma_collision_changes_step(cs, k);
        lemma_collision_changes_prefix(cs, k + 1);
    } else {
        assert(cs.take(k) =~= cs);
    }
}

proof fn lemma_room_changes_step(rooms: Seq<RoomView>, i: int)
    requires
        0 <= i < rooms.len(),
    ensures
        room_changes(rooms.take(i + 1)) == room_changes(rooms.take(i)) + collision_changes(
            rooms[i].collision,
        ),
{
    assert(rooms.take(i + 1).drop_last() =~= rooms.take(i));
}

proof fn lemma_room_changes_prefix(rooms: Seq<RoomView>, i: int)
    requires
        0 <= i <= rooms.len(),
    ensures
        room_changes(rooms.take(i)) <= room_changes(rooms),
    decreases rooms.len() - i,
{
    if i < rooms.len() {
        lemma_room_changes_step(rooms, i);
        lemma_room_changes_prefix(rooms, i + 1);
    } else {
        assert(rooms.take(i) =~= rooms);
    }
}

/// Puts every collision's art tag of the map into canonical form and returns
/// how many tags changed.
pub fn normalize_map_tileset_art_tags(map: &mut MapFile) -> (res: usize)
    requires
        room_changes(old(map)@.rooms) <= usize::MAX,
    ensures
        final(map)@ == normalized_map(old(map)@),
        res == room_changes(old(map)@.rooms),
{
    let ghost m = map@;
    let mut count: usize = 0;
    let mut i: usize = 0;
    let n = map.rooms.len();
    proof {
        assert(m.rooms.take(0) =~= Seq::<RoomView>::empty());
    }
    while i < n
        invariant
            n == map.rooms@.len(),
            m.rooms.len() == n,
            i <= n,
            map@.id == m.id,
            map@.start_room == m.start_room,
            room_changes(m.rooms) <= usize::MAX,
            forall|j: int| 0 <= j < i ==> #[trigger] map@.rooms[j] == normalized_room(m.rooms[j]),
            forall|j: int| i <= j < n ==> #[trigger] map@.rooms[j] == m.rooms[j],
            count == room_changes(m.rooms.take(i as int)),
        decreases n - i,
    {
        let ghost r = m.rooms[i as int];
        let cn = map.rooms[i].collision.len();
        let mut k: usize = 0;
        proof {
            assert(map@.rooms[i as int] == map.rooms@[i as int]@);
            assert(r.collision.take(0) =~= Seq::<CollisionView>::empty());
            lemma_room_changes_prefix(m.rooms, i as int + 1);
            lemma_room_changes_step(m.rooms, i as int);
        }
        while k < cn
            invariant
                n == map.rooms@.len(),
                m.rooms.len() == n,
                i < n,
                r == m.rooms[i as int],
                cn == r.collision.len(),
                cn == map.rooms@[i as int].collision@.len(),
                k <= cn,
                map@.id == m.id,
                map@.start_room == m.start_room,
                forall|j: int| 0 <= j < i ==> #[trigger] map@.rooms[j] == normalized_room(m.rooms[j]),
                forall|j: int| i < j < n ==> #[trigger] map@.rooms[j] == m.rooms[j],
                map@.rooms[i as int] == (RoomView {
                    collision: map@.rooms[i as int].collision,
                    ..r
                }),
                forall|q: int|
                    0 <= q < k ==> #[trigger] map@.rooms[i as int].collision[q]
                        == normalized_collision(r.collision[q]),
                forall|q: int|
                    k <= q < cn ==> #[trigger] map@.rooms[i as int].collision[q] == r.collision[q],
                count == room_changes(m.rooms.take(i as int)) + collision_changes(
                    r.collision.take(k as int),
                ),
                room_changes(m.rooms.take(i as int)) + collision_changes(r.collision)
                    <= usize::MAX,
            decreases cn - k,
        {
            let ghost before = map.rooms@;
            let ghost before_room = map.rooms@[i as int];
            let ghost c = r.collision[k as int];
            proof {
                assert(map@.rooms[i as int].collision[k as int] == before_room.collision@[k as int]@);
                lemma_collision_changes_step(r.collision, k as int);
                lemma_collision_changes_prefix(r.collision, k as int + 1);
            }
            let replacement: Option<String> = match &map.rooms[i].collision[k].art_tag {
                Some(tag) => match normalize_tileset_art_tag_kind(tag.as_str()) {
                    Some(n) => {
                        let name = String::from_str(n.as_str());
                        if *tag != name {
                            Some(name)
                        } else {
                            None
                        }
                    },
                    None => None,
                },
                None => None,
            };
            match replacement {
                Some(name) => {
                    map.rooms[i].collision[k].art_tag = Some(name);
                    count = count + 1;
                    proof {
                        let nr = map.rooms@[i as int];
                        let nc = nr.collision@[k as int];
                        assert(nc@ == normalized_collision(c));
                        assert(nr.collision@ =~= before_room.collision@.update(k as int, nc));
                        lemma_collisions_view_update(before_room.collision@, k as int, nc);
                        assert(map.rooms@ =~= before.update(i as int, nr));
                        lemma_rooms_view_update(before, i as int, nr);
                    }
                },
                None => {
                    assert(normalized_collision(c) == c);
                },
            }
            k = k + 1;
        }
        proof {
            assert(r.collision.take(cn as int) =~= r.collision);
            assert(map@.rooms[i as int].collision =~= normalized_room(r).collision);
        }
        i = i + 1;
    }
    proof {
        assert(m.rooms.take(n as int) =~= m.rooms);
        assert(map@.rooms =~= normalized_map(m).rooms);
    }
    count
}


proof fn lemma_normalized_art_tag_idempotent(tag: Option<Seq<char>>)
    ensures
        normalized_art_tag(normalized_art_tag(tag)) == normalized_art_tag(tag),
        (tag matches Some(t) && normalized_tag(t) is Some) ==> (normalized_art_tag(tag) matches Some(
            n,
        ) && normalized_tag(n) is Some),
{
    if let Some(t) = tag {
        if normalized_tag(t) is Some {
            lemma_normalize_idempotent(t);
        }
    }
}

proof fn lemma_collision_changes_zero(cs: Seq<CollisionView>)
    requires
        forall|k: int| 0 <= k < cs.len() ==> tag_changes(#[trigger] cs[k]) == 0,
    ensures
        collision_changes(cs) == 0,
    decreases cs.len(),
{
    if cs.len() > 0 {
        lemma_collision_changes_zero(cs.drop_last());
    }
}

proof fn lemma_room_changes_zero(rooms: Seq<RoomView>)
    requires
        forall|i: int| 0 <= i < rooms.len() ==> collision_changes(#[trigger] rooms[i].collision) == 0,
    ensures
        room_changes(rooms) == 0,
    decreases rooms.len(),
{
    if rooms.len() > 0 {
        lemma_room_changes_zero(rooms.drop_last());
    }
}

/// Normalising art tags twice changes nothing more than normalising them
/// once, and the second pass reports no change.
pub proof fn lemma_normalize_tags_idempotent(m: MapView)
    ensures
        normalized_map(normalized_map(m)) == normalized_map(m),
        room_changes(normalized_map(m).rooms) == 0,
{
    let m1 = normalized_map(m);
    assert forall|i: int| 0 <= i < m1.rooms.len() implies normalized_room(#[trigger] m1.rooms[i])
        == m1.rooms[i] && collision_changes(m1.rooms[i].collision) == 0 by {
        let r1 = m1.rooms[i];
        assert forall|k: int| 0 <= k < r1.collision.len() implies normalized_collision(
            #[trigger] r1.collision[k],
        ) == r1.collision[k] && tag_changes(r1.collision[k]) == 0 by {
            lemma_normalized_art_tag_idempotent(m.rooms[i].collision[k].art_tag);
        }
        assert(normalized_room(r1).collision =~= r1.collision);
        lemma_collision_changes_zero(r1.collision);
    }
    assert(normalized_map(m1).rooms =~= m1.rooms);
    lemma_room_changes_zero(m1.rooms);
}

/// Normalising the art tags of a map that passes the save check gives a map
/// that still passes it.
pub proof fn lemma_normalize_tags_keeps_map_valid(m: MapView)
    requires
        map_valid(m),
    ensures
        map_valid(normalized_map(m)),
{
    let m2 = normalized_map(m);
    assert forall|t: int, sid: Seq<char>|
        0 <= t < m.rooms.len() && #[trigger] has_spawn(m.rooms[t], sid) implies has_spawn(
        m2.rooms[t],
        sid,
    ) by {
        let r = m.rooms[t];
        let w = choose|w: int| 0 <= w < r.spawn_points.len() && r.spawn_points[w].id == sid;
        assert(m2.rooms[t].spawn_points[w].id == sid);
    }
    assert(spawns_kept(m, m2));
    lemma_room_ids_kept(m, m2);
    assert forall|i: int| 0 <= i < m2.rooms.len() implies room_valid(m2, #[trigger] m2.rooms[i]) by {
        let r = m.rooms[i];
        let r2 = m2.rooms[i];
        assert(room_valid(m, r));
        assert forall|k: int| 0 <= k < r2.collision.len() implies collision_fault(
            #[trigger] r2.collision[k],
        ) is None by {
            assert(collision_fault(r.collision[k]) is None);
            lemma_normalized_art_tag_idempotent(r.collision[k].art_tag);
        }
        let w = choose|w: int| 0 <= w < r.spawn_points.len() && r.spawn_points[w].id == r.default_spawn;
        assert(r2.spawn_points[w].id == r2.default_spawn);
        assert(room_valid(m, r2));
        lemma_room_valid_kept(m, m2, r2);
    }
}


proof fn lemma_spawns_grow(r: RoomView, r2: RoomView)
    requires
        r2.spawn_points.len() >= r.spawn_points.len(),
        forall|j: int| 0 <= j < r.spawn_points.len() ==> #[trigger] r2.spawn_points[j] == r.spawn_points[j],
    ensures
        forall|sid: Seq<char>| #[trigger] has_spawn(r, sid) ==> has_spawn(r2, sid),
{
    assert forall|sid: Seq<char>| #[trigger] has_spawn(r, sid) implies has_spawn(r2, sid) by {
        let w = choose|w: int| 0 <= w < r.spawn_points.len() && r.spawn_points[w].id == sid;
        assert(r2.spawn_points[w] == r.spawn_points[w]);
    }
}

/// Adding a drawn rectangle with a positive width and height (drawn, for
/// solid ground, with a tileset tag that stands for a tileset) to a room of
/// a map that passes the save check gives a map that still passes it; a new
/// exit leads to its own room's default spawn point.
pub proof fn lemma_add_rect_keeps_map_valid(
    m: MapView,
    room_id: Seq<char>,
    tool: EditorTool,
    rect: RectData,
    next_id: u32,
    tileset: Seq<char>,
)
    requires
        map_valid(m),
        room_position(m.rooms, room_id) is Some,
        !dims_bad(rect.w, rect.h),
        tool == EditorTool::SolidGround ==> normalized_tag(tileset) is Some,
    ensures
        map_valid(
            map_with_room(
                m,
                room_position(m.rooms, room_id)->0,
                room_with_rect(m.rooms[room_position(m.rooms, room_id)->0], tool, rect, next_id, tileset),
            ),
        ),
{
    lemma_first_index_some(room_ids(m.rooms), room_id);
    let p = room_position(m.rooms, room_id)->0;
    let r = m.rooms[p];
    assert(room_valid(m, r));
    let r2 = room_with_rect(r, tool, rect, next_id, tileset);
    lemma_spawns_grow(r, r2);
    let w = choose|w: int| 0 <= w < r.spawn_points.len() && r.spawn_points[w].id == r.default_spawn;
    assert(r2.spawn_points[w].id == r2.default_spawn);
    match tool {
        EditorTool::SolidGround => {
            assert forall|k: int| 0 <= k < r2.collision.len() implies collision_fault(
                #[trigger] r2.collision[k],
            ) is None by {
                if k < r.collision.len() {
                    assert(r2.collision[k] == r.collision[k]);
                }
            }
        },
        EditorTool::Hazard => {
            assert forall|k: int| 0 <= k < r2.hazards.len() implies !dims_bad(
                #[trigger] r2.hazards[k].w,
                r2.hazards[k].h,
            ) by {
                if k < r.hazards.len() {
                    assert(r2.hazards[k] == r.hazards[k]);
                }
            }
        },
        EditorTool::CompletionZone => {
            assert forall|k: int| 0 <= k < r2.completion_zones.len() implies !dims_bad(
                #[trigger] r2.completion_zones[k].w,
                r2.completion_zones[k].h,
            ) by {
                if k < r.completion_zones.len() {
                    assert(r2.completion_zones[k] == r.completion_zones[k]);
                }
            }
        },
        EditorTool::Exit => {
            assert(room_ids(m.rooms)[p] == r.id);
            assert(room_position(m.rooms, r.id) == Some(p));
            assert forall|k: int| 0 <= k < r2.exits.len() implies exit_fault(
                m,
                #[trigger] r2.exits[k],
            ) is None by {
                if k < r.exits.len() {
                    assert(r2.exits[k] == r.exits[k]);
                } else {
                    assert(has_spawn(m.rooms[p], r.default_spawn));
                }
            }
        },
        _ => {},
    }
    assert(room_valid(m, r2));
    lemma_valid_after_room_update(m, p, r2);
}

/// Adding a checkpoint, spawn point or dash crystal to a room of a map that
/// passes the save check gives a map that still passes it.
pub proof fn lemma_add_point_keeps_map_valid(
    m: MapView,
    room_id: Seq<char>,
    tool: EditorTool,
    point: NamedPointView,
)
    requires
        map_valid(m),
        room_position(m.rooms, room_id) is Some,
    ensures
        map_valid(
            map_with_room(
                m,
                room_position(m.rooms, room_id)->0,
                room_with_point(m.rooms[room_position(m.rooms, room_id)->0], tool, point),
            ),
        ),
{
    lemma_first_index_some(room_ids(m.rooms), room_id);
    let p = room_position(m.rooms, room_id)->0;
    let r = m.rooms[p];
    assert(room_valid(m, r));
    let r2 = room_with_point(r, tool, point);
    lemma_spawns_grow(r, r2);
    let w = choose|w: int| 0 <= w < r.spawn_points.len() && r.spawn_points[w].id == r.default_spawn;
    assert(r2.spawn_points[w].id == r2.default_spawn);
    assert(room_valid(m, r2));
    lemma_valid_after_room_update(m, p, r2);
}


/// The spring direction after `direction`, turning clockwise:
/// up, right, down, left.
pub open spec fn next_direction(direction: SpringDirection) -> SpringDirection {
    match direction {
        SpringDirection::Up => SpringDirection::Right,
        SpringDirection::Right => SpringDirection::Down,
        SpringDirection::Down => SpringDirection::Left,
        SpringDirection::Left => SpringDirection::Up,
    }
}

/// The spring direction before `direction`, turning anticlockwise.
pub open spec fn previous_direction(direction: SpringDirection) -> SpringDirection {
    match direction {
        SpringDirection::Up => SpringDirection::Left,
        SpringDirection::Left => SpringDirection::Down,
        SpringDirection::Down => SpringDirection::Right,
        SpringDirection::Right => SpringDirection::Up,
    }
}

impl SpringDirection {
    /// The direction after this one, turning clockwise.
    pub fn next(self) -> (res: SpringDirection)
        ensures
            res == next_direction(self),
    {
        match self {
            SpringDirection::Up => SpringDirection::Right,
            SpringDirection::Right => SpringDirection::Down,
            SpringDirection::Down => SpringDirection::Left,
            SpringDirection::Left => SpringDirection::Up,
        }
    }
}

/// The direction before `direction`, turning anticlockwise.
pub fn previous_spring_direction(direction: SpringDirection) -> (res: SpringDirection)
    ensures
        res == previous_direction(direction),
{
    match direction {
        SpringDirection::Up => SpringDirection::Left,
        SpringDirection::Left => SpringDirection::Down,
        SpringDirection::Down => SpringDirection::Right,
        SpringDirection::Right => SpringDirection::Up,
    }
}

/// Turning a spring one way and then the other gives back its direction,
/// and four turns the same way do too.
pub proof fn lemma_spring_turns_undo(direction: SpringDirection)
    ensures
        previous_direction(next_direction(direction)) == direction,
        next_direction(previous_direction(direction)) == direction,
        next_direction(next_direction(next_direction(next_direction(direction)))) == direction,
        next_direction(direction) != direction,
{
}

/// The direction a spring turns to: clockwise when `next`, else anticlockwise.
pub open spec fn turned_direction(direction: SpringDirection, next: bool) -> SpringDirection {
    if next {
        next_direction(direction)
    } else {
        previous_direction(direction)
    }
}

/// What the spring shortcuts did.
#[derive(Clone, Copy, Debug, PartialEq, Eq, Structural)]
pub enum SpringEditOutcome {
    /// No spring shortcut was pressed.
    NoShortcut,
    /// No room has the active room's id.
    MissingActiveRoom,
    /// The selected spring no longer exists.
    MissingSpring,
    /// The spring was turned.
    Turned,
}

/// Map `m2` and outcome `res` are what the spring shortcuts make of spring
/// `spring_index` of room `room_id` of map `m`, the spring's new position
/// being one that `snap` may give for it.
pub open spec fn spring_turned<F: Fn(Point, SpringDirection) -> Point>(
    m: MapView,
    m2: MapView,
    room_id: Seq<char>,
    spring_index: usize,
    previous: bool,
    next: bool,
    snap: F,
    res: SpringEditOutcome,
) -> bool {
    if !(previous || next) {
        res == SpringEditOutcome::NoShortcut && m2 == m
    } else {
        match room_position(m.rooms, room_id) {
            None => res == SpringEditOutcome::MissingActiveRoom && m2 == m,
            Some(p) => {
                let r = m.rooms[p];
                if spring_index >= r.springs.len() {
                    res == SpringEditOutcome::MissingSpring && m2 == m
                } else {
                    let sp = r.springs[spring_index as int];
                    let d = turned_direction(sp.direction, next);
                    &&& res == SpringEditOutcome::Turned
                    &&& exists|q: Point|
                        snap.ensures((Point { x: sp.x, y: sp.y }, d), q) && m2 == map_with_room(
                            m,
                            p,
                            RoomView {
                                springs: r.springs.update(
                                    spring_index as int,
                                    SpringView { x: q.x, y: q.y, direction: d, ..sp },
                                ),
                                ..r
                            },
                        )
                }
            },
        }
    }
}

/// Turns spring `spring_index` of the active room: clockwise when `next` is
/// pressed, else anticlockwise when `previous` is; the spring is then moved
/// to `snap(its position, its new direction)`, the grid position that fits
/// the new direction.
pub fn turn_selected_spring<F: Fn(Point, SpringDirection) -> Point>(
    map: &mut MapFile,
    active_room_id: &str,
    spring_index: usize,
    previous: bool,
    next: bool,
    snap: F,
) -> (res: SpringEditOutcome)
    requires
        forall|p: Point, d: SpringDirection| snap.requires((p, d)),
    ensures
        spring_turned(old(map)@, final(map)@, active_room_id@, spring_index, previous, next, snap, res),
        !(previous || next) ==> res == SpringEditOutcome::NoShortcut && final(map)@ == old(map)@,
        (previous || next) ==> match room_position(old(map)@.rooms, active_room_id@) {
            None => res == SpringEditOutcome::MissingActiveRoom && final(map)@ == old(map)@,
            Some(p) => {
                let r = old(map)@.rooms[p];
                if spring_index >= r.springs.len() {
                    res == SpringEditOutcome::MissingSpring && final(map)@ == old(map)@
                } else {
                    let sp = r.springs[spring_index as int];
                    let d = turned_direction(sp.direction, next);
                    &&& res == SpringEditOutcome::Turned
                    &&& exists|q: Point|
                        snap.ensures((Point { x: sp.x, y: sp.y }, d), q) && final(map)@
                            == map_with_room(
                            old(map)@,
                            p,
                            RoomView {
                                springs: r.springs.update(
                                    spring_index as int,
                                    SpringView { x: q.x, y: q.y, direction: d, ..sp },
                                ),
                                ..r
                            },
                        )
                }
            },
        },
{
    if !(previous || next) {
        return SpringEditOutcome::NoShortcut;
    }
    let i = match room_index(map, active_room_id) {
        Some(i) => i,
        None => return SpringEditOutcome::MissingActiveRoom,
    };
    let ghost old_rooms = map.rooms@;
    let ghost old_room = map.rooms@[i as int];
    assert(old(map)@.rooms[i as int] == old_room@);
    if spring_index >= map.rooms[i].springs.len() {
        return SpringEditOutcome::MissingSpring;
    }
    let current = map.rooms[i].springs[spring_index].direction;
    let direction = if next {
        current.next()
    } else {
        previous_spring_direction(current)
    };
    let position = Point { x: map.rooms[i].springs[spring_index].x, y: map.rooms[i].springs[spring_index].y };
    let snapped = snap(position, direction);
    map.rooms[i].springs[spring_index].direction = direction;
    map.rooms[i].springs[spring_index].x = snapped.x;
    map.rooms[i].springs[spring_index].y = snapped.y;
    proof {
        let nr = map.rooms@[i as int];
        let ns = nr.springs@[spring_index as int];
        assert(nr.springs@ =~= old_room.springs@.update(spring_index as int, ns));
        lemma_springs_view_update(old_room.springs@, spring_index as int, ns);
        assert(map.rooms@ =~= old_rooms.update(i as int, nr));
        lemma_rooms_view_update(old_rooms, i as int, nr);
        assert(map@.rooms =~= old(map)@.rooms.update(i as int, nr@));
        let sp = old_room@.springs[spring_index as int];
        let d = turned_direction(sp.direction, next);
        assert(position == Point { x: sp.x, y: sp.y });
        assert(snap.ensures((Point { x: sp.x, y: sp.y }, d), snapped));
        assert(map@ == map_with_room(
            old(map)@,
            i as int,
            RoomView {
                springs: old_room@.springs.update(
                    spring_index as int,
                    SpringView { x: snapped.x, y: snapped.y, direction: d, ..sp },
                ),
                ..old_room@
            },
        ));
    }
    SpringEditOutcome::Turned
}


/// Which objects of the active room lie under the cursor, list by list: a
/// rectangle when the cursor is inside it or on its edge, a point when the
/// cursor is within 8 units of it. A missing entry counts as no hit.
pub struct PickHits {
    pub exits: Vec<bool>,
    pub completion_zones: Vec<bool>,
    pub hazards: Vec<bool>,
    pub grasses: Vec<bool>,
    pub collisions: Vec<bool>,
    pub springs: Vec<bool>,
    pub dashcrystals: Vec<bool>,
    pub checkpoints: Vec<bool>,
    pub spawn_points: Vec<bool>,
}

/// The collision kinds that the editor draws and lets one select.
pub open spec fn editor_visible(kind: CollisionKind) -> bool {
    match kind {
        CollisionKind::SolidGround | CollisionKind::WallSurface | CollisionKind::OneWayPlatform => true,
        _ => false,
    }
}

pub open spec fn hit_at(hits: Seq<bool>) -> spec_fn(int) -> bool {
    |k: int| k < hits.len() && hits[k]
}

pub open spec fn visible_hit_at(hits: Seq<bool>, r: RoomView) -> spec_fn(int) -> bool {
    |k: int| k < hits.len() && hits[k] && editor_visible(r.collision[k].kind)
}

/// The object that a click selects in room `r`: lists are tried in the order
/// exits, completion zones, hazards, grass, collisions (of a visible kind),
/// springs, dash crystals, checkpoints, spawn points, and within a list the
/// last object hit wins.
pub open spec fn picked(r: RoomView, h: PickHits) -> Option<EditorSelection> {
    if last_where(r.exits.len() as int, hit_at(h.exits@)) is Some {
        Some(EditorSelection::Exit(last_where(r.exits.len() as int, hit_at(h.exits@))->0 as usize))
    } else if last_where(r.completion_zones.len() as int, hit_at(h.completion_zones@)) is Some {
        Some(
            EditorSelection::CompletionZone(
                last_where(r.completion_zones.len() as int, hit_at(h.completion_zones@))->0 as usize,
            ),
        )
    } else if last_where(r.hazards.len() as int, hit_at(h.hazards@)) is Some {
        Some(
            EditorSelection::Hazard(
                last_where(r.hazards.len() as int, hit_at(h.hazards@))->0 as usize,
            ),
        )
    } else if last_where(r.grasses.len() as int, hit_at(h.grasses@)) is Some {
        Some(
            EditorSelection::Grass(
                last_where(r.grasses.len() as int, hit_at(h.grasses@))->0 as usize,
            ),
        )
    } else if last_where(r.collision.len() as int, visible_hit_at(h.collisions@, r)) is Some {
        Some(
            EditorSelection::Collision(
                last_where(r.collision.len() as int, visible_hit_at(h.collisions@, r))->0 as usize,
            ),
        )
    } else if last_where(r.springs.len() as int, hit_at(h.springs@)) is Some {
        Some(
            EditorSelection::Spring(
                last_where(r.springs.len() as int, hit_at(h.springs@))->0 as usize,
            ),
        )
    } else if last_where(r.dashcrystals.len() as int, hit_at(h.dashcrystals@)) is Some {
        Some(
            EditorSelection::DashCrystal(
                last_where(r.dashcrystals.len() as int, hit_at(h.dashcrystals@))->0 as usize,
            ),
        )
    } else if last_where(r.checkpoints.len() as int, hit_at(h.checkpoints@)) is Some {
        Some(
            EditorSelection::Checkpoint(
                last_where(r.checkpoints.len() as int, hit_at(h.checkpoints@))->0 as usize,
            ),
        )
    } else if last_where(r.spawn_points.len() as int, hit_at(h.spawn_points@)) is Some {
        Some(
            EditorSelection::SpawnPoint(
                last_where(r.spawn_points.len() as int, hit_at(h.spawn_points@))->0 as usize,
            ),
        )
    } else {
        None
    }
}

/// The last position below `n` that `hits` marks.
fn last_hit(hits: &Vec<bool>, n: usize) -> (res: Option<usize>)
    ensures
        res == (match last_where(n as int, hit_at(hits@)) {
            Some(i) => Some(i as usize),
            None => None,
        }),
{
    let ghost p = hit_at(hits@);
    let mut k: usize = n;
    while k > 0
        invariant
            k <= n,
            p == hit_at(hits@),
            forall|j: int| k <= j < n ==> !#[trigger] p(j),
        decreases k,
    {
        let j = k - 1;
        if j < hits.len() && hits[j] {
            proof {
                lemma_last_where_found(n as int, p, j as int);
            }
            return Some(j);
        }
        k = j;
    }
    proof {
        lemma_last_where_none(n as int, p);
    }
    None
}

fn is_editor_visible(kind: CollisionKind) -> (res: bool)
    ensures
        res == editor_visible(kind),
{
    match kind {
        CollisionKind::SolidGround | CollisionKind::WallSurface | CollisionKind::OneWayPlatform => true,
        _ => false,
    }
}

/// The last visible collision of the room that `hits` marks.
fn last_visible_collision_hit(room: &RoomData, hits: &Vec<bool>) -> (res: Option<usize>)
    ensures
        res == (match last_where(room@.collision.len() as int, visible_hit_at(hits@, room@)) {
            Some(i) => Some(i as usize),
            None => None,
        }),
{
    let ghost p = visible_hit_at(hits@, room@);
    let n = room.collision.len();
    let mut k: usize = n;
    while k > 0
        invariant
            k <= n,
            n == room@.collision.len(),
            p == visible_hit_at(hits@, room@),
            forall|j: int| k <= j < n ==> !#[trigger] p(j),
        decreases k,
    {
        let j = k - 1;
        assert(room@.collision[j as int] == room.collision@[j as int]@);
        if j < hits.len() && hits[j] && is_editor_visible(room.collision[j].kind) {
            proof {
                lemma_last_where_found(n as int, p, j as int);
            }
            return Some(j);
        }
        k = j;
    }
    proof {
        lemma_last_where_none(n as int, p);
    }
    None
}

/// The object of the room with the given id that a click selects, given
/// which objects lie under the cursor (see `picked`).
pub fn pick_object(map: &MapFile, room_id: &str, hits: &PickHits) -> (res: Option<EditorSelection>)
    ensures
        res == (match room_position(map@.rooms, room_id@) {
            Some(p) => picked(map@.rooms[p], *hits),
            None => None,
        }),
{
    let i = match room_index(map, room_id) {
        Some(i) => i,
        None => return None,
    };
    let room = &map.rooms[i];
    assert(map@.rooms[i as int] == room@);
    if let Some(k) = last_hit(&hits.exits, room.exits.len()) {
        return Some(EditorSelection::Exit(k));
    }
    if let Some(k) = last_hit(&hits.completion_zones, room.completion_zones.len()) {
        return Some(EditorSelection::CompletionZone(k));
    }
    if let Some(k) = last_hit(&hits.hazards, room.hazards.len()) {
        return Some(EditorSelection::Hazard(k));
    }
    if let Some(k) = last_hit(&hits.grasses, room.grasses.len()) {
        return Some(EditorSelection::Grass(k));
    }
    if let Some(k) = last_visible_collision_hit(room, &hits.collisions) {
        return Some(EditorSelection::Collision(k));
    }
    if let Some(k) = last_hit(&hits.springs, room.springs.len()) {
        return Some(EditorSelection::Spring(k));
    }
    if let Some(k) = last_hit(&hits.dashcrystals, room.dashcrystals.len()) {
        return Some(EditorSelection::DashCrystal(k));
    }
    if let Some(k) = last_hit(&hits.checkpoints, room.checkpoints.len()) {
        return Some(EditorSelection::Checkpoint(k));
    }
    if let Some(k) = last_hit(&hits.spawn_points, room.spawn_points.len()) {
        return Some(EditorSelection::SpawnPoint(k));
    }
    None
}


/// An object being dragged to a new position.
#[derive(Clone, Copy, Debug, PartialEq, Eq, Structural)]
pub struct MoveDragState {
    pub selection: EditorSelection,
    pub start_mouse: Point,
    pub original_position: Point,
    pub moved: bool,
}

/// The map editor's state.
pub struct EditorState {
    pub enabled: bool,
    pub tool: EditorTool,
    pub selected: Option<EditorSelection>,
    pub move_drag: Option<MoveDragState>,
    pub drag_start: Option<Point>,
    pub preview_end: Option<Point>,
    pub next_id: u32,
    pub dirty: bool,
    pub last_status: String,
    pub current_tileset: String,
}

/// The editor state keeps everything but what `changed` lists.
pub open spec fn same_editor_fields(a: &EditorState, b: &EditorState) -> bool {
    &&& a.next_id == b.next_id
    &&& a.dirty == b.dirty
    &&& a.last_status@ == b.last_status@
    &&& a.current_tileset@ == b.current_tileset@
}

impl EditorState {
    /// The editor as it starts: off, with the select tool, nothing selected,
    /// object ids counting from 1, the dirt tileset and a hint on how to
    /// turn it on.
    pub fn new() -> (res: EditorState)
        ensures
            !res.enabled,
            res.tool == EditorTool::Select,
            res.selected is None,
            res.move_drag is None,
            res.drag_start is None,
            res.preview_end is None,
            res.next_id == 1,
            !res.dirty,
            res.last_status@ == "F1: toggle editor"@,
            res.current_tileset@ == tag_name(TilesetArtTag::Dirt),
    {
        EditorState {
            enabled: false,
            tool: EditorTool::Select,
            selected: None,
            move_drag: None,
            drag_start: None,
            preview_end: None,
            next_id: 1,
            dirty: false,
            last_status: String::from_str("F1: toggle editor"),
            current_tileset: String::from_str(TilesetArtTag::Dirt.as_str()),
        }
    }

    /// Turns the editor on or off, dropping any selection and drag.
    pub fn toggle(&mut self)
        ensures
            final(self).enabled == !old(self).enabled,
            final(self).tool == old(self).tool,
            final(self).selected is None,
            final(self).move_drag is None,
            final(self).drag_start is None,
            final(self).preview_end is None,
            same_editor_fields(final(self), old(self)),
    {
        self.enabled = !self.enabled;
        self.move_drag = None;
        self.drag_start = None;
        self.preview_end = None;
        self.selected = None;
    }

    /// Switches to another tool, dropping the selection and any move; the
    /// select tool also drops a rectangle being drawn.
    pub fn choose_tool(&mut self, tool: EditorTool)
        ensures
            final(self).enabled == old(self).enabled,
            final(self).tool == tool,
            final(self).selected is None,
            final(self).move_drag is None,
            final(self).drag_start == if tool == EditorTool::Select {
                None
            } else {
                old(self).drag_start
            },
            final(self).preview_end == old(self).preview_end,
            same_editor_fields(final(self), old(self)),
    {
        self.tool = tool;
        self.move_drag = None;
        if tool == EditorTool::Select {
            self.drag_start = None;
        }
        self.selected = None;
    }
}

impl Default for EditorState {
    /// The editor as it starts (see `EditorState::new`).
    fn default() -> (res: EditorState)
        ensures
            !res.enabled,
            res.tool == EditorTool::Select,
            res.selected is None,
            res.move_drag is None,
            res.drag_start is None,
            res.preview_end is None,
            res.next_id == 1,
            !res.dirty,
            res.last_status@ == "F1: toggle editor"@,
            res.current_tileset@ == tag_name(TilesetArtTag::Dirt),
    {
        EditorState::new()
    }
}

/// Whether the editor is off; no editor counts as off.
pub fn editor_inactive(editor: Option<&EditorState>) -> (res: bool)
    ensures
        res == (match editor {
            Some(e) => !e.enabled,
            None => true,
        }),
{
    match editor {
        Some(e) => !e.enabled,
        None => true,
    }
}

/// Whether the editor is on; no editor counts as off.
pub fn editor_active(editor: Option<&EditorState>) -> (res: bool)
    ensures
        res == (match editor {
            Some(e) => e.enabled,
            None => false,
        }),
{
    match editor {
        Some(e) => e.enabled,
        None => false,
    }
}

/// The tool keys pressed in one frame: digits 1 to 9 and G.
#[derive(Clone, Copy, Debug, PartialEq, Eq, Structural)]
pub struct ToolKeys {
    pub select: bool,
    pub solid_ground: bool,
    pub hazard: bool,
    pub checkpoint: bool,
    pub spawn_point: bool,
    pub dash_crystal: bool,
    pub exit: bool,
    pub completion_zone: bool,
    pub spring: bool,
    pub grass: bool,
}

/// The tool that the pressed keys choose; when several are pressed the first
/// of 1 select, 2 solid ground, 3 hazard, 4 checkpoint, 5 spawn point,
/// 6 dash crystal, 7 exit, 8 completion zone, 9 spring, G grass wins.
pub open spec fn tool_for_keys(keys: ToolKeys) -> Option<EditorTool> {
    if keys.select {
        Some(EditorTool::Select)
    } else if keys.solid_ground {
        Some(EditorTool::SolidGround)
    } else if keys.hazard {
        Some(EditorTool::Hazard)
    } else if keys.checkpoint {
        Some(EditorTool::Checkpoint)
    } else if keys.spawn_point {
        Some(EditorTool::SpawnPoint)
    } else if keys.dash_crystal {
        Some(EditorTool::DashCrystal)
    } else if keys.exit {
        Some(EditorTool::Exit)
    } else if keys.completion_zone {
        Some(EditorTool::CompletionZone)
    } else if keys.spring {
        Some(EditorTool::Spring)
    } else if keys.grass {
        Some(EditorTool::Grass)
    } else {
        None
    }
}

/// The tool that the pressed keys choose (see `tool_for_keys`).
pub fn shortcut_tool(keys: ToolKeys) -> (res: Option<EditorTool>)
    ensures
        res == tool_for_keys(keys),
{
    if keys.select {
        Some(EditorTool::Select)
    } else if keys.solid_ground {
        Some(EditorTool::SolidGround)
    } else if keys.hazard {
        Some(EditorTool::Hazard)
    } else if keys.checkpoint {
        Some(EditorTool::Checkpoint)
    } else if keys.spawn_point {
        Some(EditorTool::SpawnPoint)
    } else if keys.dash_crystal {
        Some(EditorTool::DashCrystal)
    } else if keys.exit {
        Some(EditorTool::Exit)
    } else if keys.completion_zone {
        Some(EditorTool::CompletionZone)
    } else if keys.spring {
        Some(EditorTool::Spring)
    } else if keys.grass {
        Some(EditorTool::Grass)
    } else {
        None
    }
}

/// What the tileset key did besides switching the current tileset.
#[derive(Clone, Copy, Debug, PartialEq, Eq, Structural)]
pub enum TilesetKeyOutcome {
    /// Only the current tileset changed.
    CurrentOnly,
    /// The selected collision now uses the new tileset.
    AppliedToCollision { collision: usize },
    /// The selected collision no longer exists.
    MissingCollision { collision: usize },
}

/// The collision that the tileset key retints: the selected one, when the
/// select tool is active.
pub open spec fn tileset_target(tool: EditorTool, selected: Option<EditorSelection>) -> Option<usize> {
    if tool == EditorTool::Select {
        match selected {
            Some(EditorSelection::Collision(ci)) => Some(ci),
            _ => None,
        }
    } else {
        None
    }
}

impl EditorState {
    /// The tileset key: the current tileset moves to the next one, and with
    /// the select tool a selected collision of the active room takes it on.
    pub fn cycle_tileset(&mut self, map: &mut MapFile, room_id: &str) -> (res: TilesetKeyOutcome)
        ensures
            final(self).current_tileset@ == tag_name(next_tag_after(old(self).current_tileset@)),
            final(self).enabled == old(self).enabled,
            final(self).tool == old(self).tool,
            final(self).selected == old(self).selected,
            final(self).next_id == old(self).next_id,
            final(self).dirty == (old(self).dirty || res is AppliedToCollision),
            final(self).move_drag == old(self).move_drag,
            final(self).drag_start == old(self).drag_start,
            final(self).preview_end == old(self).preview_end,
            final(self).last_status@ == old(self).last_status@,
            (match tileset_target(old(self).tool, old(self).selected) {
                Some(ci) => {
                    let p = room_position(old(map)@.rooms, room_id@);
                    if p is Some && ci < old(map)@.rooms[p->0].collision.len() {
                        let r = old(map)@.rooms[p->0];
                        &&& res == TilesetKeyOutcome::AppliedToCollision { collision: ci }
                        &&& final(map)@ == map_with_room(
                            old(map)@,
                            p->0,
                            RoomView {
                                collision: r.collision.update(
                                    ci as int,
                                    CollisionView {
                                        art_tag: Some(tag_name(next_tag_after(old(self).current_tileset@))),
                                        ..r.collision[ci as int]
                                    },
                                ),
                                ..r
                            },
                        )
                    } else {
                        &&& res == TilesetKeyOutcome::MissingCollision { collision: ci }
                        &&& final(map)@ == old(map)@
                    }
                },
                None => res == TilesetKeyOutcome::CurrentOnly && final(map)@ == old(map)@,
            }),
    {
        let next = next_tileset_art_tag(self.current_tileset.as_str());
        self.current_tileset = String::from_str(next);
        if self.tool == EditorTool::Select {
            if let Some(EditorSelection::Collision(ci)) = self.selected {
                if set_collision_tileset(map, room_id, ci, next) {
                    self.dirty = true;
                    return TilesetKeyOutcome::AppliedToCollision { collision: ci };
                } else {
                    return TilesetKeyOutcome::MissingCollision { collision: ci };
                }
            }
        }
        TilesetKeyOutcome::CurrentOnly
    }

    /// The delete key: the selection is dropped and the object it named is
    /// deleted from the active room; returns the selection and what
    /// `delete_selection` answered, or `None` when nothing was selected.
    pub fn delete_selected(&mut self, map: &mut MapFile, room_id: &str) -> (res: Option<
        (EditorSelection, Result<(), EditError>),
    >)
        ensures
            final(self).selected is None,
            final(self).enabled == old(self).enabled,
            final(self).tool == old(self).tool,
            final(self).next_id == old(self).next_id,
            final(self).current_tileset@ == old(self).current_tileset@,
            final(self).move_drag == old(self).move_drag,
            final(self).drag_start == old(self).drag_start,
            final(self).preview_end == old(self).preview_end,
            final(self).last_status@ == old(self).last_status@,
            old(self).selected is None ==> res is None && final(map)@ == old(map)@ && final(self).dirty
                == old(self).dirty,
            old(self).selected matches Some(sel) ==> res matches Some((s, r)) && s == sel && match delete_outcome(
                old(map)@,
                room_id@,
                sel,
            ) {
                Ok(m2) => r is Ok && final(map)@ == m2 && final(self).dirty,
                Err(e) => r == Err::<(), EditError>(e) && final(map)@ == old(map)@ && final(self).dirty
                    == old(self).dirty,
            },
    {
        match self.selected.take() {
            None => None,
            Some(selection) => {
                let result = delete_selection(map, room_id, selection);
                if result.is_ok() {
                    self.dirty = true;
                }
                Some((selection, result))
            },
        }
    }
}


/// The exit shortcuts with only the momentum key pressed.
pub open spec fn momentum_key() -> ExitShortcuts {
    ExitShortcuts {
        cycle_room: false,
        previous_spawn: false,
        next_spawn: false,
        previous_side: false,
        next_side: false,
        toggle_momentum: true,
    }
}

/// The exit shortcuts with only one side key pressed: the previous-side key
/// when `previous`, else the next-side key.
pub open spec fn side_key(previous: bool) -> ExitShortcuts {
    ExitShortcuts {
        cycle_room: false,
        previous_spawn: false,
        next_spawn: false,
        previous_side: previous,
        next_side: !previous,
        toggle_momentum: false,
    }
}

proof fn lemma_exit_edit_twice(m: MapView, room_id: Seq<char>, i: usize, k1: ExitShortcuts, k2: ExitShortcuts)
    requires
        room_position(m.rooms, room_id) is Some,
        i < m.rooms[room_position(m.rooms, room_id)->0].exits.len(),
        !k1.cycle_room && !k1.previous_spawn && !k1.next_spawn && any_exit_shortcut(k1),
        !k2.cycle_room && !k2.previous_spawn && !k2.next_spawn && any_exit_shortcut(k2),
        ({
            let e = m.rooms[room_position(m.rooms, room_id)->0].exits[i as int];
            edited_exit(m, edited_exit(m, e, k1), k2) == e
        }),
    ensures
        exit_edit(exit_edit(m, room_id, i, k1).1, room_id, i, k2).1 == m,
{
    let ids = room_ids(m.rooms);
    lemma_first_index_some(ids, room_id);
    let p = room_position(m.rooms, room_id)->0;
    let r = m.rooms[p];
    let e = r.exits[i as int];
    let e1 = edited_exit(m, e, k1);
    let r1 = RoomView { exits: r.exits.update(i as int, e1), ..r };
    let m1 = map_with_room(m, p, r1);
    assert(exit_edit(m, room_id, i, k1).1 == m1);
    assert(room_ids(m1.rooms) =~= ids);
    assert(room_position(m1.rooms, room_id) == Some(p));
    assert(m1.rooms[p] == r1);
    assert(r1.exits[i as int] == e1);
    assert(edited_exit(m1, e1, k2) == edited_exit(m, e1, k2));
    let r2 = RoomView { exits: r1.exits.update(i as int, e), ..r1 };
    assert(r2.exits =~= r.exits);
    assert(r2 == r);
    assert(exit_edit(m1, room_id, i, k2).1 == map_with_room(m1, p, r2));
    assert(m1.rooms.update(p, r2) =~= m.rooms);
}

/// Toggling an exit's momentum flag twice gives the map back.
pub proof fn lemma_momentum_toggle_undoes(m: MapView, room_id: Seq<char>, i: usize)
    requires
        room_position(m.rooms, room_id) is Some,
        i < m.rooms[room_position(m.rooms, room_id)->0].exits.len(),
    ensures
        exit_edit(exit_edit(m, room_id, i, momentum_key()).1, room_id, i, momentum_key()).1 == m,
{
    let p = room_position(m.rooms, room_id)->0;
    let e = m.rooms[p].exits[i as int];
    assert(edited_exit(m, edited_exit(m, e, momentum_key()), momentum_key()) == e);
    lemma_exit_edit_twice(m, room_id, i, momentum_key(), momentum_key());
}

/// Stepping an exit's side one way and then the other gives the map back.
pub proof fn lemma_side_steps_undo(m: MapView, room_id: Seq<char>, i: usize, previous_first: bool)
    requires
        room_position(m.rooms, room_id) is Some,
        i < m.rooms[room_position(m.rooms, room_id)->0].exits.len(),
    ensures
        exit_edit(exit_edit(m, room_id, i, side_key(previous_first)).1, room_id, i, side_key(!previous_first)).1
            == m,
{
    let p = room_position(m.rooms, room_id)->0;
    let e = m.rooms[p].exits[i as int];
    let e1 = edited_exit(m, e, side_key(previous_first));
    let e2 = edited_exit(m, e1, side_key(!previous_first));
    assert(e2.side == e.side) by {
        assert(side_index(e.side) == 0 || side_index(e.side) == 1 || side_index(e.side) == 2 || side_index(e.side) == 3);
    }
    assert(e2 == e);
    lemma_exit_edit_twice(m, room_id, i, side_key(previous_first), side_key(!previous_first));
}

/// `b` is `a` but for the dirty flag.
pub open spec fn kept_but_dirty(a: &EditorState, b: &EditorState) -> bool {
    &&& b.enabled == a.enabled
    &&& b.tool == a.tool
    &&& b.selected == a.selected
    &&& b.move_drag == a.move_drag
    &&& b.drag_start == a.drag_start
    &&& b.preview_end == a.preview_end
    &&& b.next_id == a.next_id
    &&& b.last_status@ == a.last_status@
    &&& b.current_tileset@ == a.current_tileset@
}

/// The object of room `room_id` of map `m` that a click with `hits` under
/// the cursor selects.
pub open spec fn pick_in_map(m: MapView, room_id: Seq<char>, hits: PickHits) -> Option<EditorSelection> {
    match room_position(m.rooms, room_id) {
        Some(p) => picked(m.rooms[p], hits),
        None => None,
    }
}

/// Where the selected object of room `room_id` of map `m` stands.
pub open spec fn selection_in_map(m: MapView, room_id: Seq<char>, selection: EditorSelection) -> Option<
    Point,
> {
    match room_position(m.rooms, room_id) {
        Some(p) => selection_point(m.rooms[p], selection),
        None => None,
    }
}

/// The id the editor gives the next point it places.
pub open spec fn point_id(next_id: u32) -> Seq<char> {
    "editor_"@ + decimal(next_id as nat)
}

/// The id the editor gives the next spring it places.
pub open spec fn spring_id(next_id: u32) -> Seq<char> {
    "editor_spring_"@ + decimal(next_id as nat)
}

impl EditorState {
    /// The exit shortcuts, when an exit is selected (see `exit_edit`); a
    /// change marks the map dirty. `None` when no exit is selected.
    pub fn apply_exit_shortcuts(&mut self, map: &mut MapFile, room_id: &str, keys: ExitShortcuts) -> (res:
        Option<ExitEditOutcome>)
        ensures
            match old(self).selected {
                Some(EditorSelection::Exit(i)) => {
                    &&& res == Some(exit_edit(old(map)@, room_id@, i, keys).0)
                    &&& final(map)@ == exit_edit(old(map)@, room_id@, i, keys).1
                    &&& final(self).dirty == (old(self).dirty || exit_edit(
                        old(map)@,
                        room_id@,
                        i,
                        keys,
                    ).0 is Changed)
                },
                _ => res is None && final(map)@ == old(map)@ && final(self).dirty == old(self).dirty,
            },
            kept_but_dirty(old(self), final(self)),
    {
        match self.selected {
            Some(EditorSelection::Exit(i)) => {
                let outcome = edit_selected_exit(map, room_id, i, keys);
                if let ExitEditOutcome::Changed { .. } = outcome {
                    self.dirty = true;
                }
                Some(outcome)
            },
            _ => None,
        }
    }

    /// The spring shortcuts, when a spring is selected (see
    /// `turn_selected_spring`); a turn marks the map dirty. `None` when no
    /// spring is selected.
    pub fn apply_spring_shortcuts<F: Fn(Point, SpringDirection) -> Point>(
        &mut self,
        map: &mut MapFile,
        room_id: &str,
        previous: bool,
        next: bool,
        snap: F,
    ) -> (res: Option<SpringEditOutcome>)
        requires
            forall|p: Point, d: SpringDirection| snap.requires((p, d)),
        ensures
            match old(self).selected {
                Some(EditorSelection::Spring(i)) => res matches Some(o) && spring_turned(
                    old(map)@,
                    final(map)@,
                    room_id@,
                    i,
                    previous,
                    next,
                    snap,
                    o,
                ) && final(self).dirty == (old(self).dirty || o == SpringEditOutcome::Turned),
                _ => res is None && final(map)@ == old(map)@ && final(self).dirty == old(self).dirty,
            },
            kept_but_dirty(old(self), final(self)),
    {
        match self.selected {
            Some(EditorSelection::Spring(i)) => {
                let outcome = turn_selected_spring(map, room_id, i, previous, next, snap);
                if outcome == SpringEditOutcome::Turned {
                    self.dirty = true;
                }
                Some(outcome)
            },
            _ => None,
        }
    }

    /// Readies the map for saving: every art tag is put in canonical form,
    /// which marks the map dirty when a tag changed, and the map is checked.
    /// Returns how many tags changed and what the check answered.
    pub fn prepare_save(&mut self, map: &mut MapFile) -> (res: (usize, Result<(), MapValidationError>))
        requires
            room_changes(old(map)@.rooms) <= usize::MAX,
        ensures
            final(map)@ == normalized_map(old(map)@),
            res.0 == room_changes(old(map)@.rooms),
            res.1 == (match map_error(normalized_map(old(map)@)) {
                Some(e) => Err(e),
                None => Ok(()),
            }),
            final(self).dirty == (old(self).dirty || res.0 > 0),
            kept_but_dirty(old(self), final(self)),
    {
        let count = normalize_map_tileset_art_tags(map);
        if count > 0 {
            self.dirty = true;
        }
        (count, validate_map_for_save(map))
    }

    /// A click with the select tool selects what lies under the cursor (see
    /// `pick_object`), or clears the selection.
    pub fn click_select(&mut self, map: &MapFile, room_id: &str, hits: &PickHits) -> (res: Option<
        EditorSelection,
    >)
        ensures
            res == pick_in_map(map@, room_id@, *hits),
            final(self).selected == res,
            final(self).enabled == old(self).enabled,
            final(self).tool == old(self).tool,
            final(self).move_drag == old(self).move_drag,
            final(self).drag_start == old(self).drag_start,
            final(self).preview_end == old(self).preview_end,
            same_editor_fields(final(self), old(self)),
    {
        let picked_now = pick_object(map, room_id, hits);
        self.selected = picked_now;
        picked_now
    }

    /// A press on the selected object starts moving it: the drag remembers
    /// where the cursor and the object started, and any rectangle being drawn
    /// is dropped. Returns whether a move started.
    pub fn begin_move(&mut self, map: &MapFile, room_id: &str, hits: &PickHits, start_mouse: Point) -> (res:
        bool)
        ensures
            res == (old(self).selected is Some && pick_in_map(map@, room_id@, *hits) == old(self).selected
                && selection_in_map(map@, room_id@, old(self).selected->0) is Some),
            res ==> final(self).move_drag == Some(
                MoveDragState {
                    selection: old(self).selected->0,
                    start_mouse,
                    original_position: selection_in_map(map@, room_id@, old(self).selected->0)->0,
                    moved: false,
                },
            ) && final(self).drag_start is None && final(self).preview_end is None,
            !res ==> final(self).move_drag == old(self).move_drag && final(self).drag_start == old(
                self,
            ).drag_start && final(self).preview_end == old(self).preview_end,
            final(self).selected == old(self).selected,
            final(self).enabled == old(self).enabled,
            final(self).tool == old(self).tool,
            same_editor_fields(final(self), old(self)),
    {
        let selection = match self.selected {
            Some(s) => s,
            None => return false,
        };
        if pick_object(map, room_id, hits) != Some(selection) {
            return false;
        }
        match selection_position(map, room_id, selection) {
            Some(original_position) => {
                self.move_drag = Some(
                    MoveDragState { selection, start_mouse, original_position, moved: false },
                );
                self.drag_start = None;
                self.preview_end = None;
                true
            },
            None => false,
        }
    }

    /// Drags the object being moved to `target` (see `move_selection_to`): a
    /// move marks the drag as having moved and the map dirty; a refused move
    /// ends the drag. `None` when nothing is being moved.
    pub fn drag_to<F: Fn(Point, SpringDirection) -> Point>(
        &mut self,
        map: &mut MapFile,
        room_id: &str,
        target: Point,
        snap_spring: F,
    ) -> (res: Option<Result<(), EditError>>)
        requires
            forall|p: Point, d: SpringDirection| snap_spring.requires((p, d)),
        ensures
            match old(self).move_drag {
                None => res is None && final(map)@ == old(map)@ && final(self).move_drag is None
                    && final(self).dirty == old(self).dirty,
                Some(md) => res matches Some(r) && moved_as(
                    old(map)@,
                    final(map)@,
                    room_id@,
                    md.selection,
                    target,
                    snap_spring,
                    r,
                ) && (r is Ok ==> final(self).move_drag == Some(MoveDragState { moved: true, ..md })
                    && final(self).dirty) && (r is Err ==> final(self).move_drag is None
                    && final(self).dirty == old(self).dirty),
            },
            final(self).selected == old(self).selected,
            final(self).enabled == old(self).enabled,
            final(self).tool == old(self).tool,
            final(self).drag_start == old(self).drag_start,
            final(self).preview_end == old(self).preview_end,
            final(self).next_id == old(self).next_id,
            final(self).last_status@ == old(self).last_status@,
            final(self).current_tileset@ == old(self).current_tileset@,
    {
        let md = match self.move_drag {
            Some(md) => md,
            None => return None,
        };
        let result = move_selection_to(map, room_id, md.selection, target, snap_spring);
        match result {
            Ok(()) => {
                self.move_drag = Some(MoveDragState { moved: true, ..md });
                self.dirty = true;
            },
            Err(_) => {
                self.move_drag = None;
            },
        }
        Some(result)
    }

    /// Releasing the mouse ends a move; returns what was moved, when it did
    /// move.
    pub fn end_move(&mut self) -> (res: Option<EditorSelection>)
        ensures
            final(self).move_drag is None,
            res == (match old(self).move_drag {
                Some(md) => if md.moved {
                    Some(md.selection)
                } else {
                    None
                },
                None => None,
            }),
            final(self).selected == old(self).selected,
            final(self).enabled == old(self).enabled,
            final(self).tool == old(self).tool,
            final(self).drag_start == old(self).drag_start,
            final(self).preview_end == old(self).preview_end,
            same_editor_fields(final(self), old(self)),
    {
        let md = self.move_drag.take();
        match md {
            Some(md) => if md.moved {
                Some(md.selection)
            } else {
                None
            },
            None => None,
        }
    }

    /// A click with a point tool places a point named after the next id at
    /// `position`; placing one uses up the id and marks the map dirty.
    pub fn place_point(&mut self, map: &mut MapFile, room_id: &str, position: Point) -> (res: bool)
        requires
            old(self).next_id < u32::MAX,
        ensures
            res == (room_position(old(map)@.rooms, room_id@) is Some && point_tool(old(self).tool)),
            res ==> final(map)@ == map_with_room(
                old(map)@,
                room_position(old(map)@.rooms, room_id@)->0,
                room_with_point(
                    old(map)@.rooms[room_position(old(map)@.rooms, room_id@)->0],
                    old(self).tool,
                    NamedPointView { id: point_id(old(self).next_id), x: position.x, y: position.y },
                ),
            ) && final(self).next_id == old(self).next_id + 1 && final(self).dirty,
            !res ==> final(map)@ == old(map)@ && final(self).next_id == old(self).next_id
                && final(self).dirty == old(self).dirty,
            final(self).enabled == old(self).enabled,
            final(self).tool == old(self).tool,
            final(self).selected == old(self).selected,
            final(self).move_drag == old(self).move_drag,
            final(self).drag_start == old(self).drag_start,
            final(self).preview_end == old(self).preview_end,
            final(self).last_status@ == old(self).last_status@,
            final(self).current_tileset@ == old(self).current_tileset@,
    {
        if !(self.tool == EditorTool::Checkpoint || self.tool == EditorTool::SpawnPoint || self.tool
            == EditorTool::DashCrystal) {
            return false;
        }
        let point = NamedPoint {
            id: with_decimal_suffix("editor_", self.next_id),
            x: position.x,
            y: position.y,
        };
        let tool = self.tool;
        if add_point_object(map, room_id, tool, point) {
            self.next_id = self.next_id + 1;
            self.dirty = true;
            true
        } else {
            false
        }
    }

    /// A click with the spring tool places an upward spring named after the
    /// next id at `position`; placing one uses up the id and marks the map
    /// dirty.
    pub fn place_spring(&mut self, map: &mut MapFile, room_id: &str, position: Point) -> (res: bool)
        requires
            old(self).next_id < u32::MAX,
        ensures
            res == (room_position(old(map)@.rooms, room_id@) is Some && old(self).tool == EditorTool::Spring),
            res ==> final(map)@ == map_with_room(
                old(map)@,
                room_position(old(map)@.rooms, room_id@)->0,
                RoomView {
                    springs: old(map)@.rooms[room_position(old(map)@.rooms, room_id@)->0].springs.push(
                        SpringView {
                            id: spring_id(old(self).next_id),
                            x: position.x,
                            y: position.y,
                            direction: SpringDirection::Up,
                        },
                    ),
                    ..old(map)@.rooms[room_position(old(map)@.rooms, room_id@)->0]
                },
            ) && final(self).next_id == old(self).next_id + 1 && final(self).dirty,
            !res ==> final(map)@ == old(map)@ && final(self).next_id == old(self).next_id
                && final(self).dirty == old(self).dirty,
            final(self).enabled == old(self).enabled,
            final(self).tool == old(self).tool,
            final(self).selected == old(self).selected,
            final(self).move_drag == old(self).move_drag,
            final(self).drag_start == old(self).drag_start,
            final(self).preview_end == old(self).preview_end,
            final(self).last_status@ == old(self).last_status@,
            final(self).current_tileset@ == old(self).current_tileset@,
    {
        if self.tool != EditorTool::Spring {
            return false;
        }
        let spring = SpringData {
            id: with_decimal_suffix("editor_spring_", self.next_id),
            x: position.x,
            y: position.y,
            direction: SpringDirection::Up,
        };
        if add_spring_object(map, room_id, spring) {
            self.next_id = self.next_id + 1;
            self.dirty = true;
            true
        } else {
            false
        }
    }

    /// A rectangle drawn with a rectangle tool is added to the room (see
    /// `add_rect_object`, with the next id and the current tileset); adding
    /// one uses up the id and marks the map dirty.
    pub fn finish_rect(&mut self, map: &mut MapFile, room_id: &str, rect: RectData) -> (res: bool)
        requires
            old(self).next_id < u32::MAX,
        ensures
            res == (room_position(old(map)@.rooms, room_id@) is Some && rect_tool(old(self).tool)),
            res ==> final(map)@ == map_with_room(
                old(map)@,
                room_position(old(map)@.rooms, room_id@)->0,
                room_with_rect(
                    old(map)@.rooms[room_position(old(map)@.rooms, room_id@)->0],
                    old(self).tool,
                    rect,
                    old(self).next_id,
                    old(self).current_tileset@,
                ),
            ) && final(self).next_id == old(self).next_id + 1 && final(self).dirty,
            !res ==> final(map)@ == old(map)@ && final(self).next_id == old(self).next_id
                && final(self).dirty == old(self).dirty,
            final(self).enabled == old(self).enabled,
            final(self).tool == old(self).tool,
            final(self).selected == old(self).selected,
            final(self).move_drag == old(self).move_drag,
            final(self).drag_start == old(self).drag_start,
            final(self).preview_end == old(self).preview_end,
            final(self).last_status@ == old(self).last_status@,
            final(self).current_tileset@ == old(self).current_tileset@,
    {
        let tool = self.tool;
        if add_rect_object(map, room_id, tool, rect, self.next_id, self.current_tileset.as_str()) {
            self.next_id = self.next_id + 1;
            self.dirty = true;
            true
        } else {
            false
        }
    }
}

/// Object `k` of a list of `n` objects lies under the cursor.
pub open spec fn is_hit(hits: Seq<bool>, n: int, k: int) -> bool {
    0 <= k < n && k < hits.len() && hits[k]
}

/// No object of a list of `n` objects lies under the cursor.
pub open spec fn nothing_hit(hits: Seq<bool>, n: int) -> bool {
    forall|k: int| !#[trigger] is_hit(hits, n, k)
}

/// Object `k` is the last object of its list that lies under the cursor.
pub open spec fn is_topmost_hit(hits: Seq<bool>, n: int, k: int) -> bool {
    &&& is_hit(hits, n, k)
    &&& forall|j: int| k < j ==> !#[trigger] is_hit(hits, n, j)
}

/// Collision `k` of room `r` lies under the cursor and is of a kind the
/// editor shows.
pub open spec fn is_visible_hit(r: RoomView, hits: Seq<bool>, k: int) -> bool {
    is_hit(hits, r.collision.len() as int, k) && editor_visible(r.collision[k].kind)
}

/// No shown collision of room `r` lies under the cursor.
pub open spec fn no_visible_hit(r: RoomView, hits: Seq<bool>) -> bool {
    forall|k: int| !#[trigger] is_visible_hit(r, hits, k)
}

/// Collision `k` is the last shown collision of room `r` under the cursor.
pub open spec fn is_topmost_visible_hit(r: RoomView, hits: Seq<bool>, k: int) -> bool {
    &&& is_visible_hit(r, hits, k)
    &&& forall|j: int| k < j ==> !#[trigger] is_visible_hit(r, hits, j)
}

proof fn lemma_last_hit_spec(hits: Seq<bool>, n: int)
    ensures
        last_where(n, hit_at(hits)) matches Some(i) ==> is_topmost_hit(hits, n, i),
        last_where(n, hit_at(hits)) is None <==> nothing_hit(hits, n),
{
    let p = hit_at(hits);
    lemma_last_where_spec(n, p);
    if let Some(i) = last_where(n, p) {
        assert forall|j: int| i < j implies !#[trigger] is_hit(hits, n, j) by {
            if j < n {
                assert(!p(j));
            }
        }
    }
    if last_where(n, p) is None {
        assert forall|k: int| !#[trigger] is_hit(hits, n, k) by {
            if 0 <= k < n {
                assert(!p(k));
            }
        }
    }
    if nothing_hit(hits, n) {
        assert forall|j: int| 0 <= j < n implies !#[trigger] p(j) by {
            assert(!is_hit(hits, n, j));
        }
    }
}

proof fn lemma_last_visible_hit_spec(r: RoomView, hits: Seq<bool>)
    ensures
        last_where(r.collision.len() as int, visible_hit_at(hits, r)) matches Some(i)
            ==> is_topmost_visible_hit(r, hits, i),
        last_where(r.collision.len() as int, visible_hit_at(hits, r)) is None <==> no_visible_hit(
            r,
            hits,
        ),
{
    let n = r.collision.len() as int;
    let p = visible_hit_at(hits, r);
    lemma_last_where_spec(n, p);
    if let Some(i) = last_where(n, p) {
        assert forall|j: int| i < j implies !#[trigger] is_visible_hit(r, hits, j) by {
            if j < n {
                assert(!p(j));
            }
        }
    }
    if last_where(n, p) is None {
        assert forall|k: int| !#[trigger] is_visible_hit(r, hits, k) by {
            if 0 <= k < n {
                assert(!p(k));
            }
        }
    }
    if no_visible_hit(r, hits) {
        assert forall|j: int| 0 <= j < n implies !#[trigger] p(j) by {
            assert(!is_visible_hit(r, hits, j));
        }
    }
}

/// A click selects the last object under the cursor of the first list, in
/// the order exits, completion zones, hazards, grass, shown collisions,
/// springs, dash crystals, checkpoints, spawn points, that has one under the
/// cursor; it selects nothing exactly when nothing lies under the cursor.
/// So a hit hazard wins over grass and collisions beneath it.
pub proof fn lemma_pick_first_hit_list(r: RoomView, h: PickHits)
    ensures
        picked(r, h) is None <==> (nothing_hit(h.exits@, r.exits.len() as int)
            && nothing_hit(h.completion_zones@, r.completion_zones.len() as int)
            && nothing_hit(h.hazards@, r.hazards.len() as int)
            && nothing_hit(h.grasses@, r.grasses.len() as int)
            && no_visible_hit(r, h.collisions@)
            && nothing_hit(h.springs@, r.springs.len() as int)
            && nothing_hit(h.dashcrystals@, r.dashcrystals.len() as int)
            && nothing_hit(h.checkpoints@, r.checkpoints.len() as int)
            && nothing_hit(h.spawn_points@, r.spawn_points.len() as int)),
        picked(r, h) matches Some(EditorSelection::Exit(k)) ==> is_topmost_hit(h.exits@, r.exits.len() as int, k as int),
        picked(r, h) matches Some(EditorSelection::CompletionZone(k)) ==> nothing_hit(h.exits@, r.exits.len() as int)
            && is_topmost_hit(h.completion_zones@, r.completion_zones.len() as int, k as int),
        picked(r, h) matches Some(EditorSelection::Hazard(k)) ==> nothing_hit(h.exits@, r.exits.len() as int)
            && nothing_hit(h.completion_zones@, r.completion_zones.len() as int)
            && is_topmost_hit(h.hazards@, r.hazards.len() as int, k as int),
        picked(r, h) matches Some(EditorSelection::Grass(k)) ==> nothing_hit(h.exits@, r.exits.len() as int)
            && nothing_hit(h.completion_zones@, r.completion_zones.len() as int)
            && nothing_hit(h.hazards@, r.hazards.len() as int)
            && is_topmost_hit(h.grasses@, r.grasses.len() as int, k as int),
        picked(r, h) matches Some(EditorSelection::Collision(k)) ==> nothing_hit(h.exits@, r.exits.len() as int)
            && nothing_hit(h.completion_zones@, r.completion_zones.len() as int)
            && nothing_hit(h.hazards@, r.hazards.len() as int)
            && nothing_hit(h.grasses@, r.grasses.len() as int)
            && is_topmost_visible_hit(r, h.collisions@, k as int),
        picked(r, h) matches Some(EditorSelection::Spring(k)) ==> nothing_hit(h.exits@, r.exits.len() as int)
            && nothing_hit(h.completion_zones@, r.completion_zones.len() as int)
            && nothing_hit(h.hazards@, r.hazards.len() as int)
            && nothing_hit(h.grasses@, r.grasses.len() as int)
            && no_visible_hit(r, h.collisions@)
            && is_topmost_hit(h.springs@, r.springs.len() as int, k as int),
        picked(r, h) matches Some(EditorSelection::DashCrystal(k)) ==> nothing_hit(h.exits@, r.exits.len() as int)
            && nothing_hit(h.completion_zones@, r.completion_zones.len() as int)
            && nothing_hit(h.hazards@, r.hazards.len() as int)
            && nothing_hit(h.grasses@, r.grasses.len() as int)
            && no_visible_hit(r, h.collisions@)
            && nothing_hit(h.springs@, r.springs.len() as int)
            && is_topmost_hit(h.dashcrystals@, r.dashcrystals.len() as int, k as int),
        picked(r, h) matches Some(EditorSelection::Checkpoint(k)) ==> nothing_hit(h.exits@, r.exits.len() as int)
            && nothing_hit(h.completion_zones@, r.completion_zones.len() as int)
            && nothing_hit(h.hazards@, r.hazards.len() as int)
            && nothing_hit(h.grasses@, r.grasses.len() as int)
            && no_visible_hit(r, h.collisions@)
            && nothing_hit(h.springs@, r.springs.len() as int)
            && nothing_hit(h.dashcrystals@, r.dashcrystals.len() as int)
            && is_topmost_hit(h.checkpoints@, r.checkpoints.len() as int, k as int),
        picked(r, h) matches Some(EditorSelection::SpawnPoint(k)) ==> nothing_hit(h.exits@, r.exits.len() as int)
            && nothing_hit(h.completion_zones@, r.completion_zones.len() as int)
            && nothing_hit(h.hazards@, r.hazards.len() as int)
            && nothing_hit(h.grasses@, r.grasses.len() as int)
            && no_visible_hit(r, h.collisions@)
            && nothing_hit(h.springs@, r.springs.len() as int)
            && nothing_hit(h.dashcrystals@, r.dashcrystals.len() as int)
            && nothing_hit(h.checkpoints@, r.checkpoints.len() as int)
            && is_topmost_hit(h.spawn_points@, r.spawn_points.len() as int, k as int),
{
    assert(h.exits@.len() == h.exits.len());
    assert(h.completion_zones@.len() == h.completion_zones.len());
    assert(h.hazards@.len() == h.hazards.len());
    assert(h.grasses@.len() == h.grasses.len());
    assert(h.collisions@.len() == h.collisions.len());
    assert(h.springs@.len() == h.springs.len());
    assert(h.dashcrystals@.len() == h.dashcrystals.len());
    assert(h.checkpoints@.len() == h.checkpoints.len());
    assert(h.spawn_points@.len() == h.spawn_points.len());
    lemma_last_hit_spec(h.exits@, r.exits.len() as int);
    lemma_last_hit_spec(h.completion_zones@, r.completion_zones.len() as int);
    lemma_last_hit_spec(h.hazards@, r.hazards.len() as int);
    lemma_last_hit_spec(h.grasses@, r.grasses.len() as int);
    lemma_last_visible_hit_spec(r, h.collisions@);
    lemma_last_hit_spec(h.springs@, r.springs.len() as int);
    lemma_last_hit_spec(h.dashcrystals@, r.dashcrystals.len() as int);
    lemma_last_hit_spec(h.checkpoints@, r.checkpoints.len() as int);
    lemma_last_hit_spec(h.spawn_points@, r.spawn_points.len() as int);
}

/// Room `r2` differs from room `r` in object positions at most: the same
/// id, bounds and default spawn point, the same number of objects in every
/// list, and every object the same but for where it stands.
pub open spec fn same_but_positions(r: RoomView, r2: RoomView) -> bool {
    &&& r2.id == r.id
    &&& r2.bounds == r.bounds
    &&& r2.default_spawn == r.default_spawn
    &&& r2.collision.len() == r.collision.len()
    &&& r2.hazards.len() == r.hazards.len()
    &&& r2.checkpoints.len() == r.checkpoints.len()
    &&& r2.spawn_points.len() == r.spawn_points.len()
    &&& r2.dashcrystals.len() == r.dashcrystals.len()
    &&& r2.springs.len() == r.springs.len()
    &&& r2.exits.len() == r.exits.len()
    &&& r2.completion_zones.len() == r.completion_zones.len()
    &&& r2.grasses.len() == r.grasses.len()
    &&& forall|j: int| 0 <= j < r.collision.len() ==> #[trigger] r2.collision[j] == (CollisionView {
        x: r2.collision[j].x,
        y: r2.collision[j].y,
        ..r.collision[j]
    })
    &&& forall|j: int| 0 <= j < r.hazards.len() ==> #[trigger] r2.hazards[j] == (RectData {
        x: r2.hazards[j].x,
        y: r2.hazards[j].y,
        ..r.hazards[j]
    })
    &&& forall|j: int| 0 <= j < r.checkpoints.len() ==> #[trigger] r2.checkpoints[j] == (NamedPointView {
        x: r2.checkpoints[j].x,
        y: r2.checkpoints[j].y,
        ..r.checkpoints[j]
    })
    &&& forall|j: int| 0 <= j < r.spawn_points.len() ==> #[trigger] r2.spawn_points[j] == (NamedPointView {
        x: r2.spawn_points[j].x,
        y: r2.spawn_points[j].y,
        ..r.spawn_points[j]
    })
    &&& forall|j: int| 0 <= j < r.dashcrystals.len() ==> #[trigger] r2.dashcrystals[j] == (NamedPointView {
        x: r2.dashcrystals[j].x,
        y: r2.dashcrystals[j].y,
        ..r.dashcrystals[j]
    })
    &&& forall|j: int| 0 <= j < r.springs.len() ==> #[trigger] r2.springs[j] == (SpringView {
        x: r2.springs[j].x,
        y: r2.springs[j].y,
        ..r.springs[j]
    })
    &&& forall|j: int| 0 <= j < r.exits.len() ==> #[trigger] r2.exits[j] == (ExitView {
        x: r2.exits[j].x,
        y: r2.exits[j].y,
        ..r.exits[j]
    })
    &&& forall|j: int| 0 <= j < r.completion_zones.len() ==> #[trigger] r2.completion_zones[j] == (RectData {
        x: r2.completion_zones[j].x,
        y: r2.completion_zones[j].y,
        ..r.completion_zones[j]
    })
    &&& forall|j: int| 0 <= j < r.grasses.len() ==> #[trigger] r2.grasses[j] == (RectData {
        x: r2.grasses[j].x,
        y: r2.grasses[j].y,
        ..r.grasses[j]
    })
}

/// Moving an object puts it where it was dragged: after a successful move
/// the moved object stands at the target (a spring at a position that
/// `snap_spring` gives for the target and its direction), every other object
/// of the room stands where it stood, nothing but positions changes in the
/// room, and every other room is unchanged.
pub proof fn lemma_move_places_object<F: Fn(Point, SpringDirection) -> Point>(
    m: MapView,
    m2: MapView,
    room_id: Seq<char>,
    selection: EditorSelection,
    target: Point,
    snap_spring: F,
    res: Result<(), EditError>,
)
    requires
        moved_as(m, m2, room_id, selection, target, snap_spring, res),
        res is Ok,
    ensures
        room_position(m.rooms, room_id) matches Some(p) && m2.rooms.len() == m.rooms.len()
            && (forall|q: int| 0 <= q < m.rooms.len() && q != p ==> m2.rooms[q] == m.rooms[q])
            && same_but_positions(m.rooms[p], m2.rooms[p])
            && (!(selection is Spring) ==> selection_point(m2.rooms[p], selection) == Some(target))
            && (selection matches EditorSelection::Spring(k) ==> exists|q: Point|
            snap_spring.ensures((target, m.rooms[p].springs[k as int].direction), q)
                && selection_point(m2.rooms[p], selection) == Some(q))
            && (forall|other: EditorSelection|
            other != selection ==> #[trigger] selection_point(m2.rooms[p], other) == selection_point(
                m.rooms[p],
                other,
            )),
{
    let p = room_position(m.rooms, room_id)->0;
    let r = m.rooms[p];
    let q = choose|q: Point|
        (selection matches EditorSelection::Spring(k) ==> snap_spring.ensures(
            (target, r.springs[k as int].direction),
            q,
        )) && m2 == map_with_room(m, p, room_with_moved(r, selection, target, q));
    assert(m2.rooms[p] == room_with_moved(r, selection, target, q));
    assert forall|other: EditorSelection|
        other != selection implies #[trigger] selection_point(m2.rooms[p], other) == selection_point(
            r,
            other,
        ) by {
    }
}

/// `new` is `old` with its element at `i` taken out: the elements before it
/// keep their places, the ones after it move down by one.
pub open spec fn removed_at<A>(old: Seq<A>, new: Seq<A>, i: int) -> bool {
    &&& 0 <= i < old.len()
    &&& new.len() + 1 == old.len()
    &&& forall|j: int| 0 <= j < i ==> #[trigger] new[j] == old[j]
    &&& forall|j: int| i <= j < new.len() ==> #[trigger] new[j] == old[j + 1]
}

/// A list after a delete: the element at `index` taken out, or the list
/// unchanged when nothing of it was deleted.
pub open spec fn list_after_delete<A>(old: Seq<A>, new: Seq<A>, index: Option<usize>) -> bool {
    match index {
        Some(i) => removed_at(old, new, i as int),
        None => new == old,
    }
}

/// Deleting removes exactly the selected object: after a successful delete
/// the selected object's list has lost the element at the selected index,
/// the rest of that list keeping its order, every other list and field of
/// the room is unchanged, and so is every other room.
pub proof fn lemma_delete_removes_selected(m: MapView, room_id: Seq<char>, selection: EditorSelection)
    ensures
        delete_outcome(m, room_id, selection) matches Ok(m2) ==> room_position(m.rooms, room_id)
            matches Some(p) && m2.id == m.id && m2.start_room == m.start_room && m2.rooms.len()
            == m.rooms.len() && (forall|q: int|
            0 <= q < m.rooms.len() && q != p ==> m2.rooms[q] == m.rooms[q])
            && m2.rooms[p].id == m.rooms[p].id && m2.rooms[p].bounds == m.rooms[p].bounds
            && m2.rooms[p].default_spawn == m.rooms[p].default_spawn
            && list_after_delete(m.rooms[p].collision, m2.rooms[p].collision, match selection {
                EditorSelection::Collision(i) => Some(i),
                _ => None,
            })
            && list_after_delete(m.rooms[p].hazards, m2.rooms[p].hazards, match selection {
                EditorSelection::Hazard(i) => Some(i),
                _ => None,
            })
            && list_after_delete(m.rooms[p].checkpoints, m2.rooms[p].checkpoints, match selection {
                EditorSelection::Checkpoint(i) => Some(i),
                _ => None,
            })
            && list_after_delete(m.rooms[p].spawn_points, m2.rooms[p].spawn_points, match selection {
                EditorSelection::SpawnPoint(i) => Some(i),
                _ => None,
            })
            && list_after_delete(m.rooms[p].dashcrystals, m2.rooms[p].dashcrystals, match selection {
                EditorSelection::DashCrystal(i) => Some(i),
                _ => None,
            })
            && list_after_delete(m.rooms[p].springs, m2.rooms[p].springs, match selection {
                EditorSelection::Spring(i) => Some(i),
                _ => None,
            })
            && list_after_delete(m.rooms[p].exits, m2.rooms[p].exits, match selection {
                EditorSelection::Exit(i) => Some(i),
                _ => None,
            })
            && list_after_delete(m.rooms[p].completion_zones, m2.rooms[p].completion_zones, match selection {
                EditorSelection::CompletionZone(i) => Some(i),
                _ => None,
            })
            && list_after_delete(m.rooms[p].grasses, m2.rooms[p].grasses, match selection {
                EditorSelection::Grass(i) => Some(i),
                _ => None,
            }),
{
    if let Ok(m2) = delete_outcome(m, room_id, selection) {
        let p = room_position(m.rooms, room_id)->0;
        let r = m.rooms[p];
        assert(m2.rooms[p] == room_without(r, selection));
    }
}

} // verus!
