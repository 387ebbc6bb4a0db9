use vstd::prelude::*;

use crate::geometry::{Coord, Point};

verus! {

/// A named position in a room (spawn point, checkpoint, dash crystal).
#[derive(Clone, Debug)]
pub struct NamedPoint {
    pub id: String,
    pub x: Coord,
    pub y: Coord,
}

/// An axis-aligned rectangle given by its centre and its size.
#[derive(Clone, Copy, Debug, PartialEq, Eq, Structural)]
pub struct RectData {
    pub x: Coord,
    pub y: Coord,
    pub w: Coord,
    pub h: Coord,
}

/// What a collision rectangle is for.
#[derive(Clone, Copy, Debug, PartialEq, Eq, Structural)]
pub enum CollisionKind {
    SolidGround,
    WallSurface,
    OneWayPlatform,
    CameraZone,
    EffectZone,
}

/// A collision rectangle, with the tileset it is drawn with.
#[derive(Clone, Debug)]
pub struct CollisionRect {
    pub kind: CollisionKind,
    pub x: Coord,
    pub y: Coord,
    pub w: Coord,
    pub h: Coord,
    pub art_tag: Option<String>,
}

/// The side of a room that an exit leaves through.
#[derive(Clone, Copy, Debug, PartialEq, Eq, Structural)]
pub enum ExitSide {
    Left,
    Right,
    Top,
    Bottom,
}

/// A rectangle that moves the player to a spawn point of another room.
#[derive(Clone, Debug)]
pub struct RoomExitData {
    pub id: String,
    pub side: ExitSide,
    pub target_room: String,
    pub target_spawn: String,
    pub x: Coord,
    pub y: Coord,
    pub w: Coord,
    pub h: Coord,
    pub preserve_momentum: bool,
}

/// The direction a spring launches the player in.
#[derive(Clone, Copy, Debug, PartialEq, Eq, Structural)]
pub enum SpringDirection {
    Up,
    Down,
    Left,
    Right,
}

/// A spring placed in a room.
#[derive(Clone, Debug)]
pub struct SpringData {
    pub id: String,
    pub x: Coord,
    pub y: Coord,
    pub direction: SpringDirection,
}

/// One room of a map.
#[derive(Clone, Debug)]
pub struct RoomData {
    pub id: String,
    pub bounds: RectData,
    pub default_spawn: String,
    pub spawn_points: Vec<NamedPoint>,
    pub collision: Vec<CollisionRect>,
    pub hazards: Vec<RectData>,
    pub checkpoints: Vec<NamedPoint>,
    pub dashcrystals: Vec<NamedPoint>,
    pub springs: Vec<SpringData>,
    pub exits: Vec<RoomExitData>,
    pub completion_zones: Vec<RectData>,
    pub grasses: Vec<RectData>,
}

/// A whole map: its rooms and the room play starts in.
#[derive(Clone, Debug)]
pub struct MapFile {
    pub id: String,
    pub start_room: String,
    pub rooms: Vec<RoomData>,
}

pub struct NamedPointView {
    pub id: Seq<char>,
    pub x: Coord,
    pub y: Coord,
}

pub struct CollisionView {
    pub kind: CollisionKind,
    pub x: Coord,
    pub y: Coord,
    pub w: Coord,
    pub h: Coord,
    pub art_tag: Option<Seq<char>>,
}

pub struct ExitView {
    pub id: Seq<char>,
    pub side: ExitSide,
    pub target_room: Seq<char>,
    pub target_spawn: Seq<char>,
    pub x: Coord,
    pub y: Coord,
    pub w: Coord,
    pub h: Coord,
    pub preserve_momentum: bool,
}

pub struct SpringView {
    pub id: Seq<char>,
    pub x: Coord,
    pub y: Coord,
    pub direction: SpringDirection,
}

pub struct RoomView {
    pub id: Seq<char>,
    pub bounds: RectData,
    pub default_spawn: Seq<char>,
    pub spawn_points: Seq<NamedPointView>,
    pub collision: Seq<CollisionView>,
    pub hazards: Seq<RectData>,
    pub checkpoints: Seq<NamedPointView>,
    pub dashcrystals: Seq<NamedPointView>,
    pub springs: Seq<SpringView>,
    pub exits: Seq<ExitView>,
    pub completion_zones: Seq<RectData>,
    pub grasses: Seq<RectData>,
}

pub struct MapView {
    pub id: Seq<char>,
    pub start_room: Seq<char>,
    pub rooms: Seq<RoomView>,
}

impl View for NamedPoint {
    type V = NamedPointView;

    open spec fn view(&self) -> NamedPointView {
        NamedPointView { id: self.id@, x: self.x, y: self.y }
    }
}

impl View for CollisionRect {
    type V = CollisionView;

    open spec fn view(&self) -> CollisionView {
        CollisionView {
            kind: self.kind,
            x: self.x,
            y: self.y,
            w: self.w,
            h: self.h,
            art_tag: match self.art_tag {
                Some(tag) => Some(tag@),
                None => None,
            },
        }
    }
}

impl View for RoomExitData {
    type V = ExitView;

    open spec fn view(&self) -> ExitView {
        ExitView {
            id: self.id@,
            side: self.side,
            target_room: self.target_room@,
            target_spawn: self.target_spawn@,
            x: self.x,
            y: self.y,
            w: self.w,
            h: self.h,
            preserve_momentum: self.preserve_momentum,
        }
    }
}

impl View for SpringData {
    type V = SpringView;

    open spec fn view(&self) -> SpringView {
        SpringView { id: self.id@, x: self.x, y: self.y, direction: self.direction }
    }
}

pub open spec fn points_view(v: Seq<NamedPoint>) -> Seq<NamedPointView> {
    v.map_values(|p: NamedPoint| p@)
}

pub open spec fn collisions_view(v: Seq<CollisionRect>) -> Seq<CollisionView> {
    v.map_values(|c: CollisionRect| c@)
}

pub open spec fn exits_view(v: Seq<RoomExitData>) -> Seq<ExitView> {
    v.map_values(|e: RoomExitData| e@)
}

pub open spec fn springs_view(v: Seq<SpringData>) -> Seq<SpringView> {
    v.map_values(|s: SpringData| s@)
}

impl View for RoomData {
    type V = RoomView;

    open spec fn view(&self) -> RoomView {
        RoomView {
            id: self.id@,
            bounds: self.bounds,
            default_spawn: self.default_spawn@,
            spawn_points: points_view(self.spawn_points@),
            collision: collisions_view(self.collision@),
            hazards: self.hazards@,
            checkpoints: points_view(self.checkpoints@),
            dashcrystals: points_view(self.dashcrystals@),
            springs: springs_view(self.springs@),
            exits: exits_view(self.exits@),
            completion_zones: self.completion_zones@,
            grasses: self.grasses@,
        }
    }
}

pub open spec fn rooms_view(v: Seq<RoomData>) -> Seq<RoomView> {
    v.map_values(|r: RoomData| r@)
}

impl View for MapFile {
    type V = MapView;

    open spec fn view(&self) -> MapView {
        MapView { id: self.id@, start_room: self.start_room@, rooms: rooms_view(self.rooms@) }
    }
}

/// `m` with room `p` replaced by `r`.
pub open spec fn map_with_room(m: MapView, p: int, r: RoomView) -> MapView {
    MapView { rooms: m.rooms.update(p, r), ..m }
}

/// `i` is the first position of `ids` that holds `id`.
pub open spec fn is_first_index(ids: Seq<Seq<char>>, id: Seq<char>, i: int) -> bool {
    &&& 0 <= i < ids.len()
    &&& ids[i] == id
    &&& forall|j: int| 0 <= j < i ==> ids[j] != id
}

/// The first position of `ids` that holds `id`, as `Iterator::position` and
/// `Iterator::find` pick it.
pub open spec fn first_index(ids: Seq<Seq<char>>, id: Seq<char>) -> Option<int> {
    if exists|i: int| is_first_index(ids, id, i) {
        Some(choose|i: int| is_first_index(ids, id, i))
    } else {
        None
    }
}

pub proof fn lemma_first_index_found(ids: Seq<Seq<char>>, id: Seq<char>, i: int)
    requires
        is_first_index(ids, id, i),
    ensures
        first_index(ids, id) == Some(i),
{
    let c = choose|k: int| is_first_index(ids, id, k);
    assert(is_first_index(ids, id, c));
    if c < i {
        assert(ids[c] != id);
    } else if c > i {
        assert(ids[i] != id);
    }
}

proof fn lemma_has_first(ids: Seq<Seq<char>>, id: Seq<char>, j: int)
    requires
        0 <= j < ids.len(),
        ids[j] == id,
    ensures
        exists|i: int| is_first_index(ids, id, i),
    decreases j,
{
    if exists|m: int| 0 <= m < j && ids[m] == id {
        let m = choose|m: int| 0 <= m < j && ids[m] == id;
        lemma_has_first(ids, id, m);
    } else {
        assert(is_first_index(ids, id, j));
    }
}

pub proof fn lemma_first_index_some(ids: Seq<Seq<char>>, id: Seq<char>)
    ensures
        first_index(ids, id) is Some <==> exists|j: int| 0 <= j < ids.len() && ids[j] == id,
        first_index(ids, id) matches Some(i) ==> is_first_index(ids, id, i),
{
    if exists|j: int| 0 <= j < ids.len() && ids[j] == id {
        let j = choose|j: int| 0 <= j < ids.len() && ids[j] == id;
        lemma_has_first(ids, id, j);
    }
}

pub open spec fn room_ids(rooms: Seq<RoomView>) -> Seq<Seq<char>> {
    rooms.map_values(|r: RoomView| r.id)
}

pub open spec fn point_ids(points: Seq<NamedPointView>) -> Seq<Seq<char>> {
    points.map_values(|p: NamedPointView| p.id)
}

/// The position of the first room with the given id.
pub open spec fn room_position(rooms: Seq<RoomView>, id: Seq<char>) -> Option<int> {
    first_index(room_ids(rooms), id)
}

/// The position of the first spawn point of `room` with the given id.
pub open spec fn spawn_position(room: RoomView, id: Seq<char>) -> Option<int> {
    first_index(point_ids(room.spawn_points), id)
}

/// The room has a spawn point with the given id.
pub open spec fn has_spawn(room: RoomView, id: Seq<char>) -> bool {
    exists|j: int| 0 <= j < room.spawn_points.len() && room.spawn_points[j].id == id
}

/// The position of the spawn point with the given id, where the room has one.
pub open spec fn spawn_point_of(room: RoomView, id: Seq<char>) -> Option<Point> {
    match spawn_position(room, id) {
        Some(i) => Some(Point { x: room.spawn_points[i].x, y: room.spawn_points[i].y }),
        None => None,
    }
}

/// Where a player who enters `room` at `entry` comes back to after dying:
/// the room's first checkpoint, else its default spawn point, else `entry`.
pub open spec fn room_respawn_point(room: RoomView, entry: Point) -> Point {
    if room.checkpoints.len() > 0 {
        Point { x: room.checkpoints[0].x, y: room.checkpoints[0].y }
    } else if spawn_point_of(room, room.default_spawn) is Some {
        spawn_point_of(room, room.default_spawn)->0
    } else {
        entry
    }
}

/// The position of the first room of `rooms` whose id is `key`.
pub fn find_room_index(rooms: &Vec<RoomData>, key: &String) -> (res: Option<usize>)
    ensures
        res matches Some(i) ==> room_position(rooms_view(rooms@), key@) == Some(i as int),
        res is None ==> room_position(rooms_view(rooms@), key@) is None,
{
    let ghost ids = room_ids(rooms_view(rooms@));
    let mut i: usize = 0;
    while i < rooms.len()
        invariant
            i <= rooms@.len(),
            ids == room_ids(rooms_view(rooms@)),
            ids.len() == rooms@.len(),
            forall|j: int| 0 <= j < i ==> ids[j] != key@,
        decreases rooms@.len() - i,
    {
        assert(ids[i as int] == rooms@[i as int].id@);
        if rooms[i].id == *key {
            proof {
                lemma_first_index_found(ids, key@, i as int);
            }
            return Some(i);
        }
        i = i + 1;
    }
    None
}

/// The position of the first point of `points` whose id is `key`.
pub fn find_point_index(points: &Vec<NamedPoint>, key: &String) -> (res: Option<usize>)
    ensures
        res matches Some(i) ==> first_index(point_ids(points_view(points@)), key@) == Some(i as int),
        res is None ==> first_index(point_ids(points_view(points@)), key@) is None,
{
    let ghost ids = point_ids(points_view(points@));
    let mut i: usize = 0;
    while i < points.len()
        invariant
            i <= points@.len(),
            ids == point_ids(points_view(points@)),
            ids.len() == points@.len(),
            forall|j: int| 0 <= j < i ==> ids[j] != key@,
        decreases points@.len() - i,
    {
        assert(ids[i as int] == points@[i as int].id@);
        if points[i].id == *key {
            proof {
                lemma_first_index_found(ids, key@, i as int);
            }
            return Some(i);
        }
        i = i + 1;
    }
    None
}

impl MapFile {
    /// The first room with the given id.
    pub fn room(&self, room_id: &str) -> (res: Option<&RoomData>)
        ensures
            res is Some <==> room_position(self@.rooms, room_id@) is Some,
            res matches Some(r) ==> r@ == self@.rooms[room_position(self@.rooms, room_id@)->0],
    {
        let key = String::from_str(room_id);
        match find_room_index(&self.rooms, &key) {
            Some(i) => Some(&self.rooms[i]),
            None => None,
        }
    }

    /// The room that play starts in.
    pub fn starting_room(&self) -> (res: Option<&RoomData>)
        ensures
            res is Some <==> room_position(self@.rooms, self@.start_room) is Some,
            res matches Some(r) ==> r@ == self@.rooms[room_position(self@.rooms, self@.start_room)->0],
    {
        self.room(self.start_room.as_str())
    }
}

impl RoomData {
    /// The position of the first spawn point with the given id.
    pub fn spawn_point(&self, spawn_id: &str) -> (res: Option<Point>)
        ensures
            res == spawn_point_of(self@, spawn_id@),
    {
        let key = String::from_str(spawn_id);
        match find_point_index(&self.spawn_points, &key) {
            Some(i) => Some(Point { x: self.spawn_points[i].x, y: self.spawn_points[i].y }),
            None => None,
        }
    }

    /// The position of the room's default spawn point.
    pub fn default_spawn_point(&self) -> (res: Option<Point>)
        ensures
            res == spawn_point_of(self@, self@.default_spawn),
    {
        self.spawn_point(self.default_spawn.as_str())
    }

    /// Where a player entering this room at `entry` respawns after dying.
    pub fn respawn_point(&self, entry: Point) -> (res: Point)
        ensures
            res == room_respawn_point(self@, entry),
    {
        if self.checkpoints.len() > 0 {
            Point { x: self.checkpoints[0].x, y: self.checkpoints[0].y }
        } else {
            match self.default_spawn_point() {
                Some(p) => p,
                None => entry,
            }
        }
    }
}

impl RectData {
    /// The rectangle's centre.
    pub fn center(&self) -> (res: Point)
        ensures
            res == (Point { x: self.x, y: self.y }),
    {
        Point { x: self.x, y: self.y }
    }

    /// The rectangle's size, width then height.
    pub fn size(&self) -> (res: Point)
        ensures
            res == (Point { x: self.w, y: self.h }),
    {
        Point { x: self.w, y: self.h }
    }
}


pub proof fn lemma_points_view_push(v: Seq<NamedPoint>, x: NamedPoint)
    ensures
        points_view(v.push(x)) == points_view(v).push(x@),
{
    assert(points_view(v.push(x)) =~= points_view(v).push(x@));
}

pub proof fn lemma_points_view_update(v: Seq<NamedPoint>, i: int, x: NamedPoint)
    requires
        0 <= i < v.len(),
    ensures
        points_view(v.update(i, x)) == points_view(v).update(i, x@),
{
    assert(points_view(v.update(i, x)) =~= points_view(v).update(i, x@));
}

pub proof fn lemma_points_view_remove(v: Seq<NamedPoint>, i: int)
    requires
        0 <= i < v.len(),
    ensures
        points_view(v.remove(i)) == points_view(v).remove(i),
{
    assert(points_view(v.remove(i)) =~= points_view(v).remove(i));
}

pub proof fn lemma_collisions_view_push(v: Seq<CollisionRect>, x: CollisionRect)
    ensures
        collisions_view(v.push(x)) == collisions_view(v).push(x@),
{
    assert(collisions_view(v.push(x)) =~= collisions_view(v).push(x@));
}

pub proof fn lemma_collisions_view_update(v: Seq<CollisionRect>, i: int, x: CollisionRect)
    requires
        0 <= i < v.len(),
    ensures
        collisions_view(v.update(i, x)) == collisions_view(v).update(i, x@),
{
    assert(collisions_view(v.update(i, x)) =~= collisions_view(v).update(i, x@));
}

pub proof fn lemma_collisions_view_remove(v: Seq<CollisionRect>, i: int)
    requires
        0 <= i < v.len(),
    ensures
        collisions_view(v.remove(i)) == collisions_view(v).remove(i),
{
    assert(collisions_view(v.remove(i)) =~= collisions_view(v).remove(i));
}

pub proof fn lemma_exits_view_push(v: Seq<RoomExitData>, x: RoomExitData)
    ensures
        exits_view(v.push(x)) == exits_view(v).push(x@),
{
    assert(exits_view(v.push(x)) =~= exits_view(v).push(x@));
}

pub proof fn lemma_exits_view_update(v: Seq<RoomExitData>, i: int, x: RoomExitData)
    requires
        0 <= i < v.len(),
    ensures
        exits_view(v.update(i, x)) == exits_view(v).update(i, x@),
{
    assert(exits_view(v.update(i, x)) =~= exits_view(v).update(i, x@));
}

pub proof fn lemma_exits_view_remove(v: Seq<RoomExitData>, i: int)
    requires
        0 <= i < v.len(),
    ensures
        exits_view(v.remove(i)) == exits_view(v).remove(i),
{
    assert(exits_view(v.remove(i)) =~= exits_view(v).remove(i));
}

pub proof fn lemma_springs_view_push(v: Seq<SpringData>, x: SpringData)
    ensures
        springs_view(v.push(x)) == springs_view(v).push(x@),
{
    assert(springs_view(v.push(x)) =~= springs_view(v).push(x@));
}

pub proof fn lemma_springs_view_update(v: Seq<SpringData>, i: int, x: SpringData)
    requires
        0 <= i < v.len(),
    ensures
        springs_view(v.update(i, x)) == springs_view(v).update(i, x@),
{
    assert(springs_view(v.update(i, x)) =~= springs_view(v).update(i, x@));
}

pub proof fn lemma_springs_view_remove(v: Seq<SpringData>, i: int)
    requires
        0 <= i < v.len(),
    ensures
        springs_view(v.remove(i)) == springs_view(v).remove(i),
{
    assert(springs_view(v.remove(i)) =~= springs_view(v).remove(i));
}

pub proof fn lemma_rooms_view_update(v: Seq<RoomData>, i: int, x: RoomData)
    requires
        0 <= i < v.len(),
    ensures
        rooms_view(v.update(i, x)) == rooms_view(v).update(i, x@),
{
    assert(rooms_view(v.update(i, x)) =~= rooms_view(v).update(i, x@));
}

} // verus!
