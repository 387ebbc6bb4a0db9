use vstd::prelude::*;

use crate::geometry::{bits_at_most_zero, Coord};
use crate::level::{
    find_point_index, find_room_index, first_index, has_spawn, map_with_room, room_ids, lemma_first_index_some, point_ids,
    points_view, room_position, CollisionRect, CollisionView, ExitView, MapFile, MapView,
    RoomData, RoomExitData, RoomView,
};
use crate::search::{first_where, lemma_first_where_found, lemma_first_where_none};
use crate::text::{chars_of, trim_bounds, trimmed};
use crate::tileset::{is_valid_tileset_art_tag, normalized_tag};

verus! {

/// Why a map cannot be saved. Rooms and the objects in them are named by
/// their positions in the map.
#[derive(Clone, Copy, Debug, PartialEq, Eq, Structural)]
pub enum MapValidationError {
    /// The map's id is empty once trimmed.
    EmptyMapId,
    /// The map has no rooms.
    NoRooms,
    /// No room has the map's start room id.
    MissingStartRoom,
    /// The room's id is empty once trimmed.
    EmptyRoomId { room: usize },
    /// The room's bounds have a width or height `<= 0`.
    InvalidBounds { room: usize },
    /// No spawn point of the room has its default spawn id.
    MissingDefaultSpawn { room: usize },
    /// A collision rectangle has a width or height `<= 0`.
    InvalidCollision { room: usize, collision: usize },
    /// A collision rectangle's art tag stands for no tileset.
    InvalidArtTag { room: usize, collision: usize },
    /// A hazard has a width or height `<= 0`.
    InvalidHazard { room: usize, hazard: usize },
    /// A completion zone has a width or height `<= 0`.
    InvalidCompletionZone { room: usize, zone: usize },
    /// An exit has a width or height `<= 0`.
    InvalidExit { room: usize, exit: usize },
    /// No room has the exit's target room id.
    MissingExitTargetRoom { room: usize, exit: usize },
    /// The exit's target room has no spawn point with its target spawn id.
    MissingExitTargetSpawn { room: usize, exit: usize },
}

/// What is wrong with a collision rectangle.
#[derive(Clone, Copy, Debug, PartialEq, Eq, Structural)]
pub enum CollisionFault {
    Dimensions,
    ArtTag,
}

/// What is wrong with an exit.
#[derive(Clone, Copy, Debug, PartialEq, Eq, Structural)]
pub enum ExitFault {
    Dimensions,
    MissingRoom,
    MissingSpawn,
}

/// A width or height that makes a rectangle invalid: one of them is `<= 0`.
pub open spec fn dims_bad(w: Coord, h: Coord) -> bool {
    bits_at_most_zero(w.bits) || bits_at_most_zero(h.bits)
}

pub open spec fn collision_fault(c: CollisionView) -> Option<CollisionFault> {
    if dims_bad(c.w, c.h) {
        Some(CollisionFault::Dimensions)
    } else if c.art_tag matches Some(t) && normalized_tag(t) is None {
        Some(CollisionFault::ArtTag)
    } else {
        None
    }
}

pub open spec fn exit_fault(m: MapView, e: ExitView) -> Option<ExitFault> {
    if dims_bad(e.w, e.h) {
        Some(ExitFault::Dimensions)
    } else {
        match room_position(m.rooms, e.target_room) {
            None => Some(ExitFault::MissingRoom),
            Some(t) => if has_spawn(m.rooms[t], e.target_spawn) {
                None
            } else {
                Some(ExitFault::MissingSpawn)
            },
        }
    }
}

pub open spec fn bad_collision(r: RoomView) -> spec_fn(int) -> bool {
    |k: int| collision_fault(r.collision[k]) is Some
}

pub open spec fn bad_hazard(r: RoomView) -> spec_fn(int) -> bool {
    |k: int| dims_bad(r.hazards[k].w, r.hazards[k].h)
}

pub open spec fn bad_zone(r: RoomView) -> spec_fn(int) -> bool {
    |k: int| dims_bad(r.completion_zones[k].w, r.completion_zones[k].h)
}

pub open spec fn bad_exit(m: MapView, r: RoomView) -> spec_fn(int) -> bool {
    |k: int| exit_fault(m, r.exits[k]) is Some
}

/// The first reason why room `i` of `m` cannot be saved, checked in the
/// order: id, bounds, default spawn, collisions, hazards, completion zones,
/// exits; within each list the first faulty object counts.
pub open spec fn room_error(m: MapView, i: int) -> Option<MapValidationError> {
    let r = m.rooms[i];
    let room = i as usize;
    if trimmed(r.id).len() == 0 {
        Some(MapValidationError::EmptyRoomId { room })
    } else if dims_bad(r.bounds.w, r.bounds.h) {
        Some(MapValidationError::InvalidBounds { room })
    } else if !has_spawn(r, r.default_spawn) {
        Some(MapValidationError::MissingDefaultSpawn { room })
    } else if first_where(r.collision.len() as int, bad_collision(r)) is Some {
        let k = first_where(r.collision.len() as int, bad_collision(r))->0;
        if collision_fault(r.collision[k]) == Some(CollisionFault::Dimensions) {
            Some(MapValidationError::InvalidCollision { room, collision: k as usize })
        } else {
            Some(MapValidationError::InvalidArtTag { room, collision: k as usize })
        }
    } else if first_where(r.hazards.len() as int, bad_hazard(r)) is Some {
        let k = first_where(r.hazards.len() as int, bad_hazard(r))->0;
        Some(MapValidationError::InvalidHazard { room, hazard: k as usize })
    } else if first_where(r.completion_zones.len() as int, bad_zone(r)) is Some {
        let k = first_where(r.completion_zones.len() as int, bad_zone(r))->0;
        Some(MapValidationError::InvalidCompletionZone { room, zone: k as usize })
    } else if first_where(r.exits.len() as int, bad_exit(m, r)) is Some {
        let k = first_where(r.exits.len() as int, bad_exit(m, r))->0;
        let exit = k as usize;
        match exit_fault(m, r.exits[k]) {
            Some(ExitFault::Dimensions) => Some(MapValidationError::InvalidExit { room, exit }),
            Some(ExitFault::MissingRoom) => Some(
                MapValidationError::MissingExitTargetRoom { room, exit },
            ),
            _ => Some(MapValidationError::MissingExitTargetSpawn { room, exit }),
        }
    } else {
        None
    }
}

pub open spec fn bad_room(m: MapView) -> spec_fn(int) -> bool {
    |i: int| room_error(m, i) is Some
}

/// The first reason why `m` cannot be saved, or `None` when it can.
pub open spec fn map_error(m: MapView) -> Option<MapValidationError> {
    if trimmed(m.id).len() == 0 {
        Some(MapValidationError::EmptyMapId)
    } else if m.rooms.len() == 0 {
        Some(MapValidationError::NoRooms)
    } else if room_position(m.rooms, m.start_room) is None {
        Some(MapValidationError::MissingStartRoom)
    } else {
        match first_where(m.rooms.len() as int, bad_room(m)) {
            Some(i) => room_error(m, i),
            None => None,
        }
    }
}

/// Whether a text is empty once trimmed.
pub fn is_blank(s: &str) -> (res: bool)
    ensures
        res == (trimmed(s@).len() == 0),
{
    let chars = chars_of(s);
    let (start, end) = trim_bounds(&chars);
    start == end
}

fn dims_are_bad(w: Coord, h: Coord) -> (res: bool)
    ensures
        res == dims_bad(w, h),
{
    w.is_at_most_zero() || h.is_at_most_zero()
}

fn room_has_spawn(room: &RoomData, id: &String) -> (res: bool)
    ensures
        res == has_spawn(room@, id@),
{
    let found = find_point_index(&room.spawn_points, id);
    proof {
        lemma_first_index_some(point_ids(points_view(room.spawn_points@)), id@);
        if found is Some {
            let j = found->0 as int;
            assert(point_ids(points_view(room.spawn_points@))[j] == room@.spawn_points[j].id);
        } else {
            assert forall|j: int| 0 <= j < room@.spawn_points.len() implies room@.spawn_points[j].id
                != id@ by {
                assert(point_ids(points_view(room.spawn_points@))[j] == room@.spawn_points[j].id);
            }
        }
    }
    found.is_some()
}

fn find_collision_fault(c: &CollisionRect) -> (res: Option<CollisionFault>)
    ensures
        res == collision_fault(c@),
{
    if dims_are_bad(c.w, c.h) {
        return Some(CollisionFault::Dimensions);
    }
    match &c.art_tag {
        Some(tag) => {
            if !is_valid_tileset_art_tag(tag.as_str()) {
                Some(CollisionFault::ArtTag)
            } else {
                None
            }
        },
        None => None,
    }
}

fn find_exit_fault(map: &MapFile, e: &RoomExitData) -> (res: Option<ExitFault>)
    ensures
        res == exit_fault(map@, e@),
{
    if dims_are_bad(e.w, e.h) {
        return Some(ExitFault::Dimensions);
    }
    match find_room_index(&map.rooms, &e.target_room) {
        None => Some(ExitFault::MissingRoom),
        Some(t) => {
            assert(map@.rooms[t as int] == map.rooms@[t as int]@);
            if room_has_spawn(&map.rooms[t], &e.target_spawn) {
                None
            } else {
                Some(ExitFault::MissingSpawn)
            }
        },
    }
}

/// The first reason why room `i` of `map` cannot be saved.
#[verifier::loop_isolation(false)]
pub fn find_room_error(map: &MapFile, i: usize) -> (res: Option<MapValidationError>)
    requires
        i < map.rooms@.len(),
    ensures
        res == room_error(map@, i as int),
{
    let room = &map.rooms[i];
    let ghost m = map@;
    let ghost r = room@;
    assert(m.rooms[i as int] == r);
    if is_blank(room.id.as_str()) {
        return Some(MapValidationError::EmptyRoomId { room: i });
    }
    if dims_are_bad(room.bounds.w, room.bounds.h) {
        return Some(MapValidationError::InvalidBounds { room: i });
    }
    if !room_has_spawn(room, &room.default_spawn) {
        return Some(MapValidationError::MissingDefaultSpawn { room: i });
    }
    let mut k: usize = 0;
    while k < room.collision.len()
        invariant
            r == room@,
            k <= room.collision@.len(),
            r.collision.len() == room.collision@.len(),
            forall|j: int| 0 <= j < k ==> !#[trigger] bad_collision(r)(j),
        decreases room.collision@.len() - k,
    {
        assert(r.collision[k as int] == room.collision@[k as int]@);
        match find_collision_fault(&room.collision[k]) {
            Some(fault) => {
                proof {
                    lemma_first_where_found(r.collision.len() as int, bad_collision(r), k as int);
                }
                return match fault {
                    CollisionFault::Dimensions => Some(
                        MapValidationError::InvalidCollision { room: i, collision: k },
                    ),
                    CollisionFault::ArtTag => Some(
                        MapValidationError::InvalidArtTag { room: i, collision: k },
                    ),
                };
            },
            None => {},
        }
        k = k + 1;
    }
    proof {
        lemma_first_where_none(r.collision.len() as int, bad_collision(r));
    }
    let mut k: usize = 0;
    while k < room.hazards.len()
        invariant
            r == room@,
            k <= room.hazards@.len(),
            forall|j: int| 0 <= j < k ==> !#[trigger] bad_hazard(r)(j),
        decreases room.hazards@.len() - k,
    {
        if dims_are_bad(room.hazards[k].w, room.hazards[k].h) {
            proof {
                lemma_first_where_found(r.hazards.len() as int, bad_hazard(r), k as int);
            }
            return Some(MapValidationError::InvalidHazard { room: i, hazard: k });
        }
        k = k + 1;
    }
    proof {
        lemma_first_where_none(r.hazards.len() as int, bad_hazard(r));
    }
    let mut k: usize = 0;
    while k < room.completion_zones.len()
        invariant
            r == room@,
            k <= room.completion_zones@.len(),
            forall|j: int| 0 <= j < k ==> !#[trigger] bad_zone(r)(j),
        decreases room.completion_zones@.len() - k,
    {
        if dims_are_bad(room.completion_zones[k].w, room.completion_zones[k].h) {
            proof {
                lemma_first_where_found(r.completion_zones.len() as int, bad_zone(r), k as int);
            }
            return Some(MapValidationError::InvalidCompletionZone { room: i, zone: k });
        }
        k = k + 1;
    }
    proof {
        lemma_first_where_none(r.completion_zones.len() as int, bad_zone(r));
    }
    let mut k: usize = 0;
    while k < room.exits.len()
        invariant
            r == room@,
            m == map@,
            k <= room.exits@.len(),
            r.exits.len() == room.exits@.len(),
            forall|j: int| 0 <= j < k ==> !#[trigger] bad_exit(m, r)(j),
        decreases room.exits@.len() - k,
    {
        assert(r.exits[k as int] == room.exits@[k as int]@);
        match find_exit_fault(map, &room.exits[k]) {
            Some(fault) => {
                proof {
                    lemma_first_where_found(r.exits.len() as int, bad_exit(m, r), k as int);
                }
                return match fault {
                    ExitFault::Dimensions => Some(
                        MapValidationError::InvalidExit { room: i, exit: k },
                    ),
                    ExitFault::MissingRoom => Some(
                        MapValidationError::MissingExitTargetRoom { room: i, exit: k },
                    ),
                    ExitFault::MissingSpawn => Some(
                        MapValidationError::MissingExitTargetSpawn { room: i, exit: k },
                    ),
                };
            },
            None => {},
        }
        k = k + 1;
    }
    proof {
        lemma_first_where_none(r.exits.len() as int, bad_exit(m, r));
    }
    None
}

/// Checks that a map can be saved, and names the first reason why not.
#[verifier::loop_isolation(false)]
pub fn validate_map_for_save(map: &MapFile) -> (res: Result<(), MapValidationError>)
    ensures
        res == (match map_error(map@) {
            Some(e) => Err(e),
            None => Ok(()),
        }),
{
    if is_blank(map.id.as_str()) {
        return Err(MapValidationError::EmptyMapId);
    }
    if map.rooms.len() == 0 {
        return Err(MapValidationError::NoRooms);
    }
    if find_room_index(&map.rooms, &map.start_room).is_none() {
        return Err(MapValidationError::MissingStartRoom);
    }
    let ghost m = map@;
    let mut i: usize = 0;
    while i < map.rooms.len()
        invariant
            m == map@,
            i <= map.rooms@.len(),
            m.rooms.len() == map.rooms@.len(),
            forall|j: int| 0 <= j < i ==> !#[trigger] bad_room(m)(j),
        decreases map.rooms@.len() - i,
    {
        match find_room_error(map, i) {
            Some(e) => {
                proof {
                    lemma_first_where_found(m.rooms.len() as int, bad_room(m), i as int);
                }
                return Err(e);
            },
            None => {},
        }
        i = i + 1;
    }
    proof {
        lemma_first_where_none(m.rooms.len() as int, bad_room(m));
    }
    Ok(())
}


/// Every rule a savable room keeps, stated over all of its objects.
pub open spec fn room_valid(m: MapView, r: RoomView) -> bool {
    &&& trimmed(r.id).len() > 0
    &&& !dims_bad(r.bounds.w, r.bounds.h)
    &&& has_spawn(r, r.default_spawn)
    &&& forall|k: int| 0 <= k < r.collision.len() ==> collision_fault(#[trigger] r.collision[k]) is None
    &&& forall|k: int| 0 <= k < r.hazards.len() ==> !dims_bad(#[trigger] r.hazards[k].w, r.hazards[k].h)
    &&& forall|k: int|
        0 <= k < r.completion_zones.len() ==> !dims_bad(
            #[trigger] r.completion_zones[k].w,
            r.completion_zones[k].h,
        )
    &&& forall|k: int| 0 <= k < r.exits.len() ==> exit_fault(m, #[trigger] r.exits[k]) is None
}

/// Every rule a savable map keeps, stated over all of its rooms.
pub open spec fn map_valid(m: MapView) -> bool {
    &&& trimmed(m.id).len() > 0
    &&& m.rooms.len() > 0
    &&& room_position(m.rooms, m.start_room) is Some
    &&& forall|i: int| 0 <= i < m.rooms.len() ==> room_valid(m, #[trigger] m.rooms[i])
}

proof fn lemma_room_error_none(m: MapView, i: int)
    requires
        0 <= i < m.rooms.len(),
    ensures
        room_error(m, i) is None <==> room_valid(m, m.rooms[i]),
{
    let r = m.rooms[i];
    lemma_first_where_none(r.collision.len() as int, bad_collision(r));
    lemma_first_where_none(r.hazards.len() as int, bad_hazard(r));
    lemma_first_where_none(r.completion_zones.len() as int, bad_zone(r));
    lemma_first_where_none(r.exits.len() as int, bad_exit(m, r));
    if room_valid(m, r) {
        assert forall|k: int| 0 <= k < r.collision.len() implies !#[trigger] bad_collision(r)(k) by {
            assert(collision_fault(r.collision[k]) is None);
        }
        assert forall|k: int| 0 <= k < r.hazards.len() implies !#[trigger] bad_hazard(r)(k) by {
            assert(!dims_bad(r.hazards[k].w, r.hazards[k].h));
        }
        assert forall|k: int| 0 <= k < r.completion_zones.len() implies !#[trigger] bad_zone(r)(k) by {
            assert(!dims_bad(r.completion_zones[k].w, r.completion_zones[k].h));
        }
        assert forall|k: int| 0 <= k < r.exits.len() implies !#[trigger] bad_exit(m, r)(k) by {
            assert(exit_fault(m, r.exits[k]) is None);
        }
    }
    if room_error(m, i) is None {
        assert forall|k: int| 0 <= k < r.collision.len() implies collision_fault(
            #[trigger] r.collision[k],
        ) is None by {
            assert(!bad_collision(r)(k));
        }
        assert forall|k: int| 0 <= k < r.hazards.len() implies !dims_bad(
            #[trigger] r.hazards[k].w,
            r.hazards[k].h,
        ) by {
            assert(!bad_hazard(r)(k));
        }
        assert forall|k: int| 0 <= k < r.completion_zones.len() implies !dims_bad(
            #[trigger] r.completion_zones[k].w,
            r.completion_zones[k].h,
        ) by {
            assert(!bad_zone(r)(k));
        }
        assert forall|k: int| 0 <= k < r.exits.len() implies exit_fault(
            m,
            #[trigger] r.exits[k],
        ) is None by {
            assert(!bad_exit(m, r)(k));
        }
    }
}

/// A map passes the save check exactly when it keeps every rule of
/// `map_valid`.
pub proof fn lemma_map_error_none_iff_valid(m: MapView)
    ensures
        map_error(m) is None <==> map_valid(m),
{
    lemma_first_where_none(m.rooms.len() as int, bad_room(m));
    assert forall|i: int| 0 <= i < m.rooms.len() implies (!#[trigger] bad_room(m)(i) <==> room_valid(
        m,
        m.rooms[i],
    )) by {
        lemma_room_error_none(m, i);
    }
    if map_valid(m) {
        assert forall|i: int| 0 <= i < m.rooms.len() implies !#[trigger] bad_room(m)(i) by {
            assert(room_valid(m, m.rooms[i]));
        }
    }
    if map_error(m) is None && trimmed(m.id).len() > 0 && m.rooms.len() > 0 && room_position(
        m.rooms,
        m.start_room,
    ) is Some {
        assert forall|i: int| 0 <= i < m.rooms.len() implies room_valid(m, #[trigger] m.rooms[i]) by {
            assert(!bad_room(m)(i));
        }
    }
}


/// `m2` has the rooms of `m`, with the same ids in the same order, and every
/// spawn point id that a room of `m` has is still had by that room in `m2`;
/// so every exit that resolves in `m` resolves in `m2`.
pub open spec fn spawns_kept(m: MapView, m2: MapView) -> bool {
    &&& m.rooms.len() == m2.rooms.len()
    &&& forall|t: int| 0 <= t < m.rooms.len() ==> (#[trigger] m.rooms[t]).id == m2.rooms[t].id
    &&& forall|t: int, s: Seq<char>|
        0 <= t < m.rooms.len() && #[trigger] has_spawn(m.rooms[t], s) ==> has_spawn(
            m2.rooms[t],
            s,
        )
}

pub proof fn lemma_room_ids_kept(m: MapView, m2: MapView)
    requires
        spawns_kept(m, m2),
    ensures
        room_ids(m.rooms) == room_ids(m2.rooms),
{
    assert forall|t: int| 0 <= t < m.rooms.len() implies room_ids(m.rooms)[t] == room_ids(
        m2.rooms,
    )[t] by {
        assert(m.rooms[t].id == m2.rooms[t].id);
    }
    assert(room_ids(m.rooms) =~= room_ids(m2.rooms));
}

pub proof fn lemma_exit_ok_kept(m: MapView, m2: MapView, e: ExitView)
    requires
        spawns_kept(m, m2),
        exit_fault(m, e) is None,
    ensures
        exit_fault(m2, e) is None,
{
    lemma_room_ids_kept(m, m2);
    lemma_first_index_some(room_ids(m.rooms), e.target_room);
    let t = room_position(m.rooms, e.target_room)->0;
    assert(has_spawn(m.rooms[t], e.target_spawn));
}

pub proof fn lemma_room_valid_kept(m: MapView, m2: MapView, r: RoomView)
    requires
        spawns_kept(m, m2),
        room_valid(m, r),
    ensures
        room_valid(m2, r),
{
    assert forall|k: int| 0 <= k < r.exits.len() implies exit_fault(m2, #[trigger] r.exits[k])
        is None by {
        lemma_exit_ok_kept(m, m2, r.exits[k]);
    }
}

/// Replacing one room of a valid map by a room with the same id, that still
/// has every spawn point id the old room had and that keeps the room rules,
/// gives a valid map.
pub proof fn lemma_valid_after_room_update(m: MapView, p: int, r: RoomView)
    requires
        map_valid(m),
        0 <= p < m.rooms.len(),
        r.id == m.rooms[p].id,
        forall|s: Seq<char>| has_spawn(m.rooms[p], s) ==> has_spawn(r, s),
        room_valid(m, r),
    ensures
        map_valid(map_with_room(m, p, r)),
{
    let m2 = map_with_room(m, p, r);
    assert(spawns_kept(m, m2));
    lemma_room_ids_kept(m, m2);
    assert forall|i: int| 0 <= i < m2.rooms.len() implies room_valid(m2, #[trigger] m2.rooms[i]) by {
        if i == p {
            lemma_room_valid_kept(m, m2, r);
        } else {
            assert(room_valid(m, m.rooms[i]));
            lemma_room_valid_kept(m, m2, m.rooms[i]);
        }
    }
}

} // verus!
