use vstd::prelude::*;

use crate::geometry::{Coord, Point};
use crate::level::{room_position, room_respawn_point, spawn_point_of, MapFile, MapView};

verus! {

/// The stages a player's death goes through.
#[derive(Clone, Copy, Debug, PartialEq, Eq, Structural)]
pub enum DeathSequencePhase {
    Inactive,
    PlayerDeathAnimation,
    ClosingWipe,
    RespawnReset,
    OpeningWipe,
}

/// The death sequence in progress: its stage, the time spent in it and the
/// frame of the death animation shown.
#[derive(Clone, Copy, Debug, PartialEq, Eq, Structural)]
pub struct DeathSequence {
    pub phase: DeathSequencePhase,
    pub timer: Coord,
    pub frame_index: usize,
}

/// How many frames the death animation has.
pub const DEATH_ANIMATION_FRAMES: usize = 13;

impl DeathSequence {
    /// No death in progress.
    pub fn new() -> (res: DeathSequence)
        ensures
            res == (DeathSequence {
                phase: DeathSequencePhase::Inactive,
                timer: Coord { bits: 0 },
                frame_index: 0,
            }),
    {
        DeathSequence { phase: DeathSequencePhase::Inactive, timer: Coord { bits: 0 }, frame_index: 0 }
    }

    /// Whether a death is in progress.
    pub fn active(&self) -> (res: bool)
        ensures
            res == (self.phase != DeathSequencePhase::Inactive),
    {
        self.phase != DeathSequencePhase::Inactive
    }

    /// Starts the death animation, unless a death is already in progress.
    pub fn start(&mut self)
        ensures
            old(self).phase != DeathSequencePhase::Inactive ==> *final(self) == *old(self),
            old(self).phase == DeathSequencePhase::Inactive ==> *final(self) == (DeathSequence {
                phase: DeathSequencePhase::PlayerDeathAnimation,
                timer: Coord { bits: 0 },
                frame_index: 0,
            }),
    {
        if !self.active() {
            self.phase = DeathSequencePhase::PlayerDeathAnimation;
            self.timer = Coord { bits: 0 };
            self.frame_index = 0;
        }
    }
}

impl Default for DeathSequence {
    /// No death in progress (see `DeathSequence::new`).
    fn default() -> (res: DeathSequence)
        ensures
            res == (DeathSequence {
                phase: DeathSequencePhase::Inactive,
                timer: Coord { bits: 0 },
                frame_index: 0,
            }),
    {
        DeathSequence::new()
    }
}

/// The stage after `phase` once the current stage reports `finished` (the
/// animation has played out, the wipe has closed or opened): the death
/// animation, the closing wipe, the respawn (which always finishes at once),
/// the opening wipe, and back to no death.
pub open spec fn phase_after(phase: DeathSequencePhase, finished: bool) -> DeathSequencePhase {
    match phase {
        DeathSequencePhase::Inactive => DeathSequencePhase::Inactive,
        DeathSequencePhase::PlayerDeathAnimation => if finished {
            DeathSequencePhase::ClosingWipe
        } else {
            phase
        },
        DeathSequencePhase::ClosingWipe => if finished {
            DeathSequencePhase::RespawnReset
        } else {
            phase
        },
        DeathSequencePhase::RespawnReset => DeathSequencePhase::OpeningWipe,
        DeathSequencePhase::OpeningWipe => if finished {
            DeathSequencePhase::Inactive
        } else {
            phase
        },
    }
}

/// Moves the death sequence on when its stage has finished; a new stage
/// starts with its timer at zero, and the end of the sequence also resets
/// the animation frame.
pub fn advance_death_sequence(sequence: &mut DeathSequence, finished: bool)
    ensures
        final(sequence).phase == phase_after(old(sequence).phase, finished),
        final(sequence).phase == old(sequence).phase ==> *final(sequence) == *old(sequence),
        final(sequence).phase != old(sequence).phase ==> final(sequence).timer == (Coord { bits: 0 }),
        final(sequence).phase != old(sequence).phase && final(sequence).phase
            != DeathSequencePhase::Inactive ==> final(sequence).frame_index == old(sequence).frame_index,
        final(sequence).phase != old(sequence).phase && final(sequence).phase
            == DeathSequencePhase::Inactive ==> final(sequence).frame_index == 0,
{
    let next = match sequence.phase {
        DeathSequencePhase::Inactive => DeathSequencePhase::Inactive,
        DeathSequencePhase::PlayerDeathAnimation => if finished {
            DeathSequencePhase::ClosingWipe
        } else {
            DeathSequencePhase::PlayerDeathAnimation
        },
        DeathSequencePhase::ClosingWipe => if finished {
            DeathSequencePhase::RespawnReset
        } else {
            DeathSequencePhase::ClosingWipe
        },
        DeathSequencePhase::RespawnReset => DeathSequencePhase::OpeningWipe,
        DeathSequencePhase::OpeningWipe => if finished {
            DeathSequencePhase::Inactive
        } else {
            DeathSequencePhase::OpeningWipe
        },
    };
    if next != sequence.phase {
        sequence.phase = next;
        sequence.timer = Coord { bits: 0 };
        if next == DeathSequencePhase::Inactive {
            sequence.frame_index = 0;
        }
    }
}

/// The frame of the death animation shown `elapsed_frames` frame intervals
/// after it began: it holds on the last frame once played out.
pub fn death_frame_index(elapsed_frames: usize) -> (res: usize)
    ensures
        res == if elapsed_frames < DEATH_ANIMATION_FRAMES - 1 {
            elapsed_frames
        } else {
            (DEATH_ANIMATION_FRAMES - 1) as usize
        },
        res < DEATH_ANIMATION_FRAMES,
{
    if elapsed_frames < DEATH_ANIMATION_FRAMES - 1 {
        elapsed_frames
    } else {
        DEATH_ANIMATION_FRAMES - 1
    }
}

/// A death, once started, runs through the death animation, the closing
/// wipe, the respawn and the opening wipe and then ends; starting again while
/// it runs changes nothing.
pub proof fn lemma_death_sequence_runs_through()
    ensures
        phase_after(DeathSequencePhase::PlayerDeathAnimation, true) == DeathSequencePhase::ClosingWipe,
        phase_after(DeathSequencePhase::ClosingWipe, true) == DeathSequencePhase::RespawnReset,
        phase_after(DeathSequencePhase::RespawnReset, false) == DeathSequencePhase::OpeningWipe,
        phase_after(DeathSequencePhase::OpeningWipe, true) == DeathSequencePhase::Inactive,
        forall|f: bool| #[trigger] phase_after(DeathSequencePhase::Inactive, f) == DeathSequencePhase::Inactive,
{
}

/// Whether touching a dash crystal gives the dash back: only when no dash is
/// left and the dash was not started in this very frame.
pub fn crystal_refills(dashes_remaining: u8, dash_pressed: bool, is_dashing: bool, touching: bool) -> (res:
    bool)
    ensures
        res == (dashes_remaining == 0 && !(dash_pressed && is_dashing) && touching),
{
    let just_started_dash_this_frame = dash_pressed && is_dashing;
    dashes_remaining == 0 && !just_started_dash_this_frame && touching
}

/// The frame after `frame` of an animation with `count` frames, looping.
pub fn next_looping_frame(frame: usize, count: usize) -> (res: usize)
    requires
        count > 0,
        frame < count,
    ensures
        res == (frame + 1) % (count as int),
        res < count,
{
    if frame + 1 == count {
        proof {
            vstd::arithmetic::div_mod::lemma_mod_self_0(count as int);
        }
        0
    } else {
        proof {
            vstd::arithmetic::div_mod::lemma_small_mod((frame + 1) as nat, count as nat);
        }
        frame + 1
    }
}

/// Whether gameplay runs this frame: no freeze frame is pending and the
/// pause menu is closed.
pub fn gameplay_active(freeze_over: bool, menu_open: bool) -> (res: bool)
    ensures
        res == (freeze_over && !menu_open),
{
    freeze_over && !menu_open
}

/// Where a room transition leads: the target room's position in the map,
/// the spawn point entered, and the point the player will respawn at in that
/// room. `None` when the target room or its spawn point is missing.
pub open spec fn transition_plan(m: MapView, target_room: Seq<char>, target_spawn: Seq<char>) -> Option<
    (int, Point, Point),
> {
    match room_position(m.rooms, target_room) {
        None => None,
        Some(t) => match spawn_point_of(m.rooms[t], target_spawn) {
            None => None,
            Some(spawn) => Some((t, spawn, room_respawn_point(m.rooms[t], spawn))),
        },
    }
}

/// Where a room transition leads (see `transition_plan`).
pub fn plan_room_transition(map: &MapFile, target_room: &str, target_spawn: &str) -> (res: Option<
    (usize, Point, Point),
>)
    ensures
        res == (match transition_plan(map@, target_room@, target_spawn@) {
            Some((t, s, r)) => Some((t as usize, s, r)),
            None => None,
        }),
{
    let key = String::from_str(target_room);
    let t = match crate::level::find_room_index(&map.rooms, &key) {
        Some(t) => t,
        None => return None,
    };
    let room = &map.rooms[t];
    assert(map@.rooms[t as int] == room@);
    let spawn = match room.spawn_point(target_spawn) {
        Some(s) => s,
        None => return None,
    };
    let respawn = room.respawn_point(spawn);
    Some((t, spawn, respawn))
}

/// The room the player is in, in which map, and where they respawn after
/// dying.
#[derive(Clone, Debug)]
pub struct ActiveRoom {
    pub map_id: String,
    pub room_id: String,
    pub respawn_point: Point,
}

impl ActiveRoom {
    /// Follows an exit to spawn point `target_spawn` of room `target_room`:
    /// the target room becomes the active room, with the respawn point that
    /// `room_respawn_point` gives it. Returns the target room's position and
    /// the spawn point entered; where the room or the spawn point is missing
    /// nothing changes and `None` comes back.
    pub fn follow_exit(&mut self, map: &MapFile, target_room: &str, target_spawn: &str) -> (res: Option<
        (usize, Point),
    >)
        ensures
            match transition_plan(map@, target_room@, target_spawn@) {
                None => res is None && *final(self) == *old(self),
                Some((t, s, r)) => {
                    &&& res == Some((t as usize, s))
                    &&& final(self).map_id == old(self).map_id
                    &&& final(self).room_id@ == target_room@
                    &&& final(self).respawn_point == r
                },
            },
    {
        match plan_room_transition(map, target_room, target_spawn) {
            None => None,
            Some((t, spawn, respawn)) => {
                self.room_id = String::from_str(target_room);
                self.respawn_point = respawn;
                Some((t, spawn))
            },
        }
    }

    /// Touching a checkpoint makes it the respawn point.
    pub fn touch_checkpoint(&mut self, checkpoint: Point)
        ensures
            final(self).respawn_point == checkpoint,
            final(self).map_id == old(self).map_id,
            final(self).room_id == old(self).room_id,
    {
        self.respawn_point = checkpoint;
    }
}

/// Why a map cannot be entered.
#[derive(Clone, Copy, Debug, PartialEq, Eq, Structural)]
pub enum MapEntryError {
    /// No room has the map's start room id.
    MissingStartRoom,
    /// The start room has no spawn point with its default spawn id.
    MissingDefaultSpawn,
}

/// Where play starts in a map: the start room's position and its default
/// spawn point.
pub fn map_entry_point(map: &MapFile) -> (res: Result<(usize, Point), MapEntryError>)
    ensures
        match room_position(map@.rooms, map@.start_room) {
            None => res == Err::<(usize, Point), MapEntryError>(MapEntryError::MissingStartRoom),
            Some(t) => match spawn_point_of(map@.rooms[t], map@.rooms[t].default_spawn) {
                None => res == Err::<(usize, Point), MapEntryError>(
                    MapEntryError::MissingDefaultSpawn,
                ),
                Some(p) => res == Ok::<(usize, Point), MapEntryError>((t as usize, p)),
            },
        },
{
    let t = match crate::level::find_room_index(&map.rooms, &map.start_room) {
        Some(t) => t,
        None => return Err(MapEntryError::MissingStartRoom),
    };
    let room = &map.rooms[t];
    assert(map@.rooms[t as int] == room@);
    match room.default_spawn_point() {
        Some(p) => Ok((t, p)),
        None => Err(MapEntryError::MissingDefaultSpawn),
    }
}

/// A map that passes the save check can always be entered.
pub proof fn lemma_valid_map_can_be_entered(m: MapView)
    requires
        crate::validation::map_valid(m),
    ensures
        room_position(m.rooms, m.start_room) is Some,
        spawn_point_of(
            m.rooms[room_position(m.rooms, m.start_room)->0],
            m.rooms[room_position(m.rooms, m.start_room)->0].default_spawn,
        ) is Some,
{
    crate::level::lemma_first_index_some(crate::level::room_ids(m.rooms), m.start_room);
    let t = room_position(m.rooms, m.start_room)->0;
    let r = m.rooms[t];
    assert(crate::validation::room_valid(m, r));
    let j = choose|j: int| 0 <= j < r.spawn_points.len() && r.spawn_points[j].id == r.default_spawn;
    assert(crate::level::point_ids(r.spawn_points)[j] == r.default_spawn);
    crate::level::lemma_first_index_some(crate::level::point_ids(r.spawn_points), r.default_spawn);
}


/// In a map that passes the save check, every exit leads somewhere: the room
/// transition it triggers finds its target room and spawn point.
pub proof fn lemma_valid_map_exits_lead_somewhere(m: MapView, i: int, k: int)
    requires
        crate::validation::map_valid(m),
        0 <= i < m.rooms.len(),
        0 <= k < m.rooms[i].exits.len(),
    ensures
        transition_plan(m, m.rooms[i].exits[k].target_room, m.rooms[i].exits[k].target_spawn) is Some,
{
    let e = m.rooms[i].exits[k];
    assert(crate::validation::room_valid(m, m.rooms[i]));
    assert(crate::validation::exit_fault(m, e) is None);
    crate::level::lemma_first_index_some(crate::level::room_ids(m.rooms), e.target_room);
    let t = room_position(m.rooms, e.target_room)->0;
    let r = m.rooms[t];
    let j = choose|j: int| 0 <= j < r.spawn_points.len() && r.spawn_points[j].id == e.target_spawn;
    assert(crate::level::point_ids(r.spawn_points)[j] == e.target_spawn);
    crate::level::lemma_first_index_some(crate::level::point_ids(r.spawn_points), e.target_spawn);
}

} // verus!
