use vstd::prelude::*;

verus! {

/// Which wall, if any, the player touches.
#[derive(Clone, Copy, Debug, PartialEq, Eq, Structural)]
pub enum WallContact {
    NoWall,
    Left,
    Right,
}

/// The movement state of the player.
#[derive(Clone, Copy, Debug, PartialEq, Eq, Structural)]
pub enum PlayerState {
    Normal,
    Climb,
    Dash,
}

/// The player's current movement state and the one before it.
#[derive(Clone, Copy, Debug, PartialEq, Eq, Structural)]
pub struct PlayerStateMachine {
    pub current: PlayerState,
    pub previous: PlayerState,
}

/// The state the player is in: dashing while a dash lasts; climbing while
/// grabbing a wall in the air once the wall-jump lock is over; else normal.
pub open spec fn player_state_for(
    is_dashing: bool,
    grab_held: bool,
    grounded: bool,
    wall_contact: WallContact,
    wall_jump_lock_over: bool,
) -> PlayerState {
    if is_dashing {
        PlayerState::Dash
    } else if grab_held && !grounded && wall_contact != WallContact::NoWall && wall_jump_lock_over {
        PlayerState::Climb
    } else {
        PlayerState::Normal
    }
}

/// The state the player is in (see `player_state_for`); `wall_jump_lock_over`
/// tells that the wall-jump timer has run out (`<= 0`).
pub fn resolve_player_state(
    is_dashing: bool,
    grab_held: bool,
    grounded: bool,
    wall_contact: WallContact,
    wall_jump_lock_over: bool,
) -> (res: PlayerState)
    ensures
        res == player_state_for(is_dashing, grab_held, grounded, wall_contact, wall_jump_lock_over),
{
    if is_dashing {
        PlayerState::Dash
    } else if grab_held && !grounded && wall_contact != WallContact::NoWall && wall_jump_lock_over {
        PlayerState::Climb
    } else {
        PlayerState::Normal
    }
}

/// Moves the state machine to `next_state`; the state it leaves becomes the
/// previous one. Moving to the current state changes nothing.
pub fn transition_player_state(state_machine: &mut PlayerStateMachine, next_state: PlayerState)
    ensures
        old(state_machine).current == next_state ==> *final(state_machine) == *old(state_machine),
        old(state_machine).current != next_state ==> *final(state_machine) == (PlayerStateMachine {
            current: next_state,
            previous: old(state_machine).current,
        }),
{
    if state_machine.current != next_state {
        state_machine.previous = state_machine.current;
        state_machine.current = next_state;
    }
}

/// Whether leaving `previous_state` for `next_state` ends a dash, which
/// slows the player down.
pub fn ends_dash(previous_state: PlayerState, next_state: PlayerState) -> (res: bool)
    ensures
        res == (previous_state == PlayerState::Dash && next_state != PlayerState::Dash),
{
    previous_state == PlayerState::Dash && next_state != PlayerState::Dash
}

/// The direction of one input axis: 1 when only the positive key is held,
/// -1 when only the negative one is, 0 otherwise.
pub open spec fn axis_value(negative: bool, positive: bool) -> i8 {
    if positive && !negative {
        1
    } else if negative && !positive {
        -1i8
    } else {
        0
    }
}

/// The direction of one input axis (see `axis_value`).
pub fn input_axis(negative: bool, positive: bool) -> (res: i8)
    ensures
        res == axis_value(negative, positive),
{
    if positive && !negative {
        1
    } else if negative && !positive {
        -1
    } else {
        0
    }
}

/// The way the player faces after the input of a frame, `None` when it stays
/// the same: towards the wall while grabbing one, else the way of a
/// horizontal input.
pub open spec fn facing_for(grab_held: bool, wall_contact: WallContact, move_x: i8) -> Option<i8> {
    if grab_held && wall_contact != WallContact::NoWall {
        match wall_contact {
            WallContact::Left => Some(-1i8),
            WallContact::Right => Some(1i8),
            WallContact::NoWall => None,
        }
    } else if move_x != 0 {
        Some(move_x)
    } else {
        None
    }
}

/// The way the player faces after the input of a frame (see `facing_for`).
pub fn facing_after_input(grab_held: bool, wall_contact: WallContact, move_x: i8) -> (res: Option<i8>)
    ensures
        res == facing_for(grab_held, wall_contact, move_x),
{
    if grab_held && wall_contact != WallContact::NoWall {
        match wall_contact {
            WallContact::Left => Some(-1),
            WallContact::Right => Some(1),
            WallContact::NoWall => None,
        }
    } else if move_x != 0 {
        Some(move_x)
    } else {
        None
    }
}

/// The kind of jump made off a wall.
#[derive(Clone, Copy, Debug, PartialEq, Eq, Structural)]
pub enum WallJumpKind {
    /// Straight up, while climbing.
    Climb,
    /// Away from the wall with no horizontal input.
    Neutral,
    /// Away from the wall with horizontal input.
    Kick,
}

/// The wall jump a buffered jump makes: a climb jump while climbing, else a
/// neutral jump without horizontal input, else a kick.
pub fn wall_jump_kind(climbing: bool, move_x: i8) -> (res: WallJumpKind)
    ensures
        res == if climbing {
            WallJumpKind::Climb
        } else if move_x == 0 {
            WallJumpKind::Neutral
        } else {
            WallJumpKind::Kick
        },
{
    if climbing {
        WallJumpKind::Climb
    } else if move_x == 0 {
        WallJumpKind::Neutral
    } else {
        WallJumpKind::Kick
    }
}

/// The side of the wall touched: -1 for the left, 1 for the right, 0 for none.
pub fn wall_direction(contact: WallContact) -> (res: i8)
    ensures
        res == (match contact {
            WallContact::Left => -1i8,
            WallContact::Right => 1i8,
            WallContact::NoWall => 0i8,
        }),
{
    match contact {
        WallContact::Left => -1,
        WallContact::Right => 1,
        WallContact::NoWall => 0,
    }
}

/// The direction of a dash before it is scaled to unit length, from the
/// input axes: a grounded, crouching player dashes along the ground only,
/// and with no direction held the player dashes the way they face.
pub open spec fn dash_axes_for(move_x: i8, move_y: i8, grounded: bool, crouching: bool, facing_left: bool) -> (
    i8,
    i8,
) {
    let y = if grounded && crouching { 0i8 } else { move_y };
    if move_x == 0 && y == 0 {
        (if facing_left { -1i8 } else { 1i8 }, 0i8)
    } else {
        (move_x, y)
    }
}

/// The direction of a dash before it is scaled to unit length (see
/// `dash_axes_for`); `facing_left` is the sign of the facing being negative.
pub fn dash_axes(move_x: i8, move_y: i8, grounded: bool, crouching: bool, facing_left: bool) -> (res: (
    i8,
    i8,
))
    ensures
        res == dash_axes_for(move_x, move_y, grounded, crouching, facing_left),
        res.0 != 0 || res.1 != 0,
{
    let y = if grounded && crouching {
        0
    } else {
        move_y
    };
    if move_x == 0 && y == 0 {
        (if facing_left {
            -1
        } else {
            1
        }, 0)
    } else {
        (move_x, y)
    }
}

/// Holding both keys of an axis cancels them, and swapping the keys turns
/// the direction round.
pub proof fn lemma_axis_symmetry(negative: bool, positive: bool)
    ensures
        axis_value(true, true) == 0,
        axis_value(positive, negative) == -(axis_value(negative, positive) as int),
{
}

} // verus!
