use vstd::prelude::*;

use crate::player::WallContact;

verus! {

/// The animation the player sprite plays.
#[derive(Clone, Copy, Debug, PartialEq, Eq, Structural)]
pub enum AnimationState {
    Idle,
    Run,
    Duck,
    Dash,
    JumpSlow,
    JumpFast,
    FallSlow,
    FallFast,
    Climb,
    ClimbLookback,
    Death,
}

/// What the player's animation is chosen from, one frame's worth. The float
/// comparisons are made by the caller: `facing_left` is `facing < 0`,
/// `facing_right` is `facing > 0`, `moving` is `|vx| > 5`, `rising` is
/// `vy > 0`, `not_rising` is `vy <= 0`, `fall_fast` is a fast jump or a fall
/// at least as fast as the fast-fall speed, `wall_jump_lock_over` is a
/// wall-jump timer `<= 0`, `super_jump` is a super-jump timer `> 0`.
#[derive(Clone, Copy, Debug, PartialEq, Eq, Structural)]
pub struct AnimationInputs {
    pub is_dashing: bool,
    pub grab_held: bool,
    pub wall_contact: WallContact,
    pub facing_left: bool,
    pub facing_right: bool,
    pub wall_jump_lock_over: bool,
    pub move_x: i8,
    pub moving: bool,
    pub grounded: bool,
    pub rising: bool,
    pub not_rising: bool,
    pub fall_fast: bool,
    pub crouching: bool,
    pub super_jump: bool,
}

/// The player holds on to the wall it faces.
pub open spec fn holding_wall(i: AnimationInputs) -> bool {
    let facing_wall = match i.wall_contact {
        WallContact::Left => i.facing_left,
        WallContact::Right => i.facing_right,
        WallContact::NoWall => false,
    };
    i.grab_held && !i.is_dashing && i.wall_contact != WallContact::NoWall && facing_wall
        && i.wall_jump_lock_over
}

/// The horizontal input that points away from the wall touched.
pub open spec fn away_from_wall(contact: WallContact) -> i8 {
    match contact {
        WallContact::Left => 1,
        WallContact::Right => -1i8,
        WallContact::NoWall => 0,
    }
}

/// The animation the player plays, by priority: dash, looking back while
/// holding a wall, climbing, ducking, fast jump (during a super jump), slow
/// jump, fast fall, slow fall, running on the ground, idle.
pub open spec fn animation_for(i: AnimationInputs) -> AnimationState {
    let lookback = holding_wall(i) && i.move_x == away_from_wall(i.wall_contact) && away_from_wall(
        i.wall_contact,
    ) != 0;
    let jumping_up = !i.grounded && i.rising;
    let falling = !i.grounded && i.not_rising;
    if i.is_dashing {
        AnimationState::Dash
    } else if lookback {
        AnimationState::ClimbLookback
    } else if holding_wall(i) {
        AnimationState::Climb
    } else if i.crouching {
        AnimationState::Duck
    } else if jumping_up && i.super_jump {
        AnimationState::JumpFast
    } else if jumping_up {
        AnimationState::JumpSlow
    } else if falling && i.fall_fast {
        AnimationState::FallFast
    } else if falling {
        AnimationState::FallSlow
    } else if i.grounded && i.moving {
        AnimationState::Run
    } else {
        AnimationState::Idle
    }
}

/// The animation the player plays (see `animation_for`).
pub fn choose_animation_state(i: AnimationInputs) -> (res: AnimationState)
    ensures
        res == animation_for(i),
{
    let facing_wall = match i.wall_contact {
        WallContact::Left => i.facing_left,
        WallContact::Right => i.facing_right,
        WallContact::NoWall => false,
    };
    let holding = i.grab_held && !i.is_dashing && i.wall_contact != WallContact::NoWall
        && facing_wall && i.wall_jump_lock_over;
    let away: i8 = match i.wall_contact {
        WallContact::Left => 1,
        WallContact::Right => -1,
        WallContact::NoWall => 0,
    };
    let lookback = holding && i.move_x == away && away != 0;
    let jumping_up = !i.grounded && i.rising;
    let falling = !i.grounded && i.not_rising;
    if i.is_dashing {
        AnimationState::Dash
    } else if lookback {
        AnimationState::ClimbLookback
    } else if holding {
        AnimationState::Climb
    } else if i.crouching {
        AnimationState::Duck
    } else if jumping_up && i.super_jump {
        AnimationState::JumpFast
    } else if jumping_up {
        AnimationState::JumpSlow
    } else if falling && i.fall_fast {
        AnimationState::FallFast
    } else if falling {
        AnimationState::FallSlow
    } else if i.grounded && i.moving {
        AnimationState::Run
    } else {
        AnimationState::Idle
    }
}

/// Whether the sprite is drawn mirrored: a climbing player faces the wall on
/// the left, any other faces left when `facing < 0`.
pub fn sprite_flipped(state: AnimationState, wall_contact: WallContact, facing_left: bool) -> (res: bool)
    ensures
        res == (match state {
            AnimationState::Climb | AnimationState::ClimbLookback => wall_contact == WallContact::Left,
            _ => facing_left,
        }),
{
    match state {
        AnimationState::Climb | AnimationState::ClimbLookback => wall_contact == WallContact::Left,
        _ => facing_left,
    }
}

/// How many frames each animation's sheet holds.
pub open spec fn frame_count(state: AnimationState) -> usize {
    match state {
        AnimationState::Idle => 9,
        AnimationState::Run => 12,
        AnimationState::Duck => 1,
        AnimationState::Dash => 4,
        AnimationState::JumpSlow => 2,
        AnimationState::JumpFast => 2,
        AnimationState::FallSlow => 2,
        AnimationState::FallFast => 2,
        AnimationState::Climb => 6,
        AnimationState::ClimbLookback => 3,
        AnimationState::Death => 13,
    }
}

/// How many frames an animation's sheet holds.
pub fn animation_frame_count(state: AnimationState) -> (res: usize)
    ensures
        res == frame_count(state),
{
    match state {
        AnimationState::Idle => 9,
        AnimationState::Run => 12,
        AnimationState::Duck => 1,
        AnimationState::Dash => 4,
        AnimationState::JumpSlow => 2,
        AnimationState::JumpFast => 2,
        AnimationState::FallSlow => 2,
        AnimationState::FallFast => 2,
        AnimationState::Climb => 6,
        AnimationState::ClimbLookback => 3,
        AnimationState::Death => 13,
    }
}

/// The frame after `index` when the animation timer ticks: climbing moves
/// forward with upward input, backward with downward input and rests on the
/// first frame otherwise; every other animation loops forward.
pub open spec fn next_frame(state: AnimationState, index: usize, move_y: i8) -> usize {
    let max_frames = frame_count(state);
    match state {
        AnimationState::Climb | AnimationState::ClimbLookback => if move_y > 0 {
            if index >= max_frames - 1 {
                0
            } else {
                (index + 1) as usize
            }
        } else if move_y < 0 {
            if index == 0 {
                (max_frames - 1) as usize
            } else {
                (index - 1) as usize
            }
        } else {
            0
        },
        _ => if index >= max_frames - 1 {
            0
        } else {
            (index + 1) as usize
        },
    }
}

/// The frame after `index` when the animation timer ticks (see
/// `next_frame`).
pub fn next_atlas_index(state: AnimationState, index: usize, move_y: i8) -> (res: usize)
    ensures
        res == next_frame(state, index, move_y),
{
    let max_frames = animation_frame_count(state);
    match state {
        AnimationState::Climb | AnimationState::ClimbLookback => {
            if move_y > 0 {
                if index >= max_frames - 1 {
                    0
                } else {
                    index + 1
                }
            } else if move_y < 0 {
                if index == 0 {
                    max_frames - 1
                } else {
                    index - 1
                }
            } else {
                0
            }
        },
        _ => {
            if index >= max_frames - 1 {
                0
            } else {
                index + 1
            }
        },
    }
}

/// An animation that starts inside its sheet stays inside it: the next frame
/// is always a frame of the sheet.
pub proof fn lemma_next_frame_in_sheet(state: AnimationState, index: usize, move_y: i8)
    requires
        index < frame_count(state),
    ensures
        next_frame(state, index, move_y) < frame_count(state),
{
}

/// Whether `frame` is a frame the sprite can show for `state`: the duck
/// sprite is a single image with no atlas, and every other sheet's frame lies
/// inside the sheet.
pub open spec fn frame_fits(state: AnimationState, frame: Option<usize>) -> bool {
    &&& state == AnimationState::Duck ==> frame is None
    &&& frame matches Some(i) ==> i < frame_count(state)
}

/// The atlas frame after one update of the sprite, which showed `previous`
/// at `frame` and now shows `next`: a change of animation starts the new
/// sheet at its first frame (the duck sprite has no atlas); the duck sprite
/// then stays as it is, and any other animation steps its frame when the
/// animation timer has just finished.
pub open spec fn stepped_frame(
    previous: AnimationState,
    next: AnimationState,
    frame: Option<usize>,
    tick_finished: bool,
    move_y: i8,
) -> Option<usize> {
    let shown = if previous != next {
        if next == AnimationState::Duck {
            None
        } else {
            Some(0usize)
        }
    } else {
        frame
    };
    if next == AnimationState::Duck || !tick_finished {
        shown
    } else {
        match shown {
            Some(i) => Some(next_frame(next, i, move_y)),
            None => None,
        }
    }
}

/// The atlas frame after one update of the sprite (see `stepped_frame`).
/// `frame` is the atlas index shown for `previous` (`None` where the sprite
/// has no atlas), `tick_finished` whether the animation timer has just
/// finished, `move_y` the vertical input. The frame always fits the new
/// animation when it fitted the old one, and after any change of animation.
pub fn animation_step(
    previous: AnimationState,
    next: AnimationState,
    frame: Option<usize>,
    tick_finished: bool,
    move_y: i8,
) -> (res: Option<usize>)
    ensures
        res == stepped_frame(previous, next, frame, tick_finished, move_y),
        frame_fits(previous, frame) ==> frame_fits(next, res),
        previous != next ==> frame_fits(next, res),
{
    let shown = if previous != next {
        if next == AnimationState::Duck {
            None
        } else {
            Some(0usize)
        }
    } else {
        frame
    };
    let res = if next == AnimationState::Duck || !tick_finished {
        shown
    } else {
        match shown {
            Some(i) => Some(next_atlas_index(next, i, move_y)),
            None => None,
        }
    };
    proof {
        if previous != next || frame_fits(previous, frame) {
            lemma_frame_stays_in_sheet(previous, next, frame, tick_finished, move_y);
        }
    }
    res
}

/// The sprite's frame always stays inside its sheet: after an update that
/// changes the animation the frame fits the new one, and an update that
/// keeps the animation keeps a fitting frame fitting.
pub proof fn lemma_frame_stays_in_sheet(
    previous: AnimationState,
    next: AnimationState,
    frame: Option<usize>,
    tick_finished: bool,
    move_y: i8,
)
    requires
        previous != next || frame_fits(previous, frame),
    ensures
        frame_fits(next, stepped_frame(previous, next, frame, tick_finished, move_y)),
{
    let shown = if previous != next {
        if next == AnimationState::Duck {
            None
        } else {
            Some(0usize)
        }
    } else {
        frame
    };
    if let Some(i) = shown {
        lemma_next_frame_in_sheet(next, i, move_y);
    }
}

/// A dash always shows the dash animation, and a grounded, still player that
/// neither dashes, holds a wall nor ducks stands idle.
pub proof fn lemma_animation_priorities(i: AnimationInputs)
    ensures
        i.is_dashing ==> animation_for(i) == AnimationState::Dash,
        !i.is_dashing && !holding_wall(i) && !i.crouching && i.grounded && !i.moving ==> animation_for(i)
            == AnimationState::Idle,
{
}

/// The vertical offset of the hair root for an animation frame, following
/// the head's bob.
pub open spec fn hair_offset_for(state: AnimationState, frame_index: usize) -> i8 {
    match state {
        AnimationState::Idle => if frame_index <= 3 {
            -2i8
        } else if frame_index <= 8 {
            -1i8
        } else {
            0
        },
        AnimationState::Run => if frame_index % 4 == 0 || frame_index % 4 == 2 {
            -1i8
        } else if frame_index % 4 == 1 {
            0
        } else {
            -2i8
        },
        AnimationState::Duck => -4i8,
        AnimationState::Climb | AnimationState::ClimbLookback => -1i8,
        _ => -2i8,
    }
}

/// The vertical offset of the hair root for an animation frame (see
/// `hair_offset_for`). The death animation has no hair.
pub fn hair_anim_offset(state: AnimationState, frame_index: usize) -> (res: i8)
    requires
        state != AnimationState::Death,
    ensures
        res == hair_offset_for(state, frame_index),
{
    match state {
        AnimationState::Idle => if frame_index <= 3 {
            -2
        } else if frame_index <= 8 {
            -1
        } else {
            0
        },
        AnimationState::Run => if frame_index % 4 == 0 || frame_index % 4 == 2 {
            -1
        } else if frame_index % 4 == 1 {
            0
        } else {
            -2
        },
        AnimationState::Duck => -4,
        AnimationState::Climb | AnimationState::ClimbLookback => -1,
        _ => -2,
    }
}

/// The vertical offset of the bangs for an animation frame: they follow the
/// hair when idle, stay put when running, and otherwise sit as the hair does.
pub fn bangs_anim_offset(state: AnimationState, frame_index: usize) -> (res: i8)
    requires
        state != AnimationState::Death,
    ensures
        res == (match state {
            AnimationState::Run => 0,
            _ => hair_offset_for(state, frame_index),
        }),
{
    match state {
        AnimationState::Run => 0,
        _ => hair_anim_offset(state, frame_index),
    }
}

/// The same situation seen in a mirror: the wall on the other side, facing
/// the other way, the horizontal input turned round.
pub open spec fn mirrored(i: AnimationInputs) -> AnimationInputs {
    AnimationInputs {
        wall_contact: match i.wall_contact {
            WallContact::Left => WallContact::Right,
            WallContact::Right => WallContact::Left,
            WallContact::NoWall => WallContact::NoWall,
        },
        facing_left: i.facing_right,
        facing_right: i.facing_left,
        move_x: (-i.move_x) as i8,
        ..i
    }
}

/// The animation does not depend on which side things happen: mirroring
/// the wall, the facing and the horizontal input gives the same animation.
pub proof fn lemma_animation_mirror(i: AnimationInputs)
    requires
        i.move_x != i8::MIN,
    ensures
        animation_for(mirrored(i)) == animation_for(i),
{
}

/// A player who grabs the wall it faces (not dashing, the wall-jump lock
/// over) looks back exactly when pressing away from the wall (right on a
/// left wall, left on a right wall), and climbs otherwise.
pub proof fn lemma_wall_cling_animation(i: AnimationInputs)
    requires
        i.grab_held,
        !i.is_dashing,
        i.wall_jump_lock_over,
        (i.wall_contact == WallContact::Left && i.facing_left) || (i.wall_contact
            == WallContact::Right && i.facing_right),
    ensures
        animation_for(i) == (if (i.wall_contact == WallContact::Left && i.move_x == 1) || (
        i.wall_contact == WallContact::Right && i.move_x == -1) {
            AnimationState::ClimbLookback
        } else {
            AnimationState::Climb
        }),
{
}

} // verus!
