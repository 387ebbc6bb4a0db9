use celeste::animation::{
    animation_frame_count, animation_step, bangs_anim_offset, choose_animation_state, hair_anim_offset,
    next_atlas_index, sprite_flipped, AnimationInputs, AnimationState,
};
use celeste::player::{
    dash_axes, ends_dash, facing_after_input, input_axis, resolve_player_state,
    transition_player_state, wall_direction, wall_jump_kind, PlayerState, PlayerStateMachine,
    WallContact, WallJumpKind,
};

fn standing() -> AnimationInputs {
    AnimationInputs {
        is_dashing: false,
        grab_held: false,
        wall_contact: WallContact::NoWall,
        facing_left: false,
        facing_right: true,
        wall_jump_lock_over: true,
        move_x: 0,
        moving: false,
        grounded: true,
        rising: false,
        not_rising: true,
        fall_fast: false,
        crouching: false,
        super_jump: false,
    }
}

#[test]
fn player_state_priorities() {
    assert_eq!(resolve_player_state(true, true, false, WallContact::Left, true), PlayerState::Dash);
    assert_eq!(resolve_player_state(false, true, false, WallContact::Left, true), PlayerState::Climb);
    assert_eq!(resolve_player_state(false, true, true, WallContact::Left, true), PlayerState::Normal);
    assert_eq!(resolve_player_state(false, true, false, WallContact::NoWall, true), PlayerState::Normal);
    assert_eq!(resolve_player_state(false, true, false, WallContact::Right, false), PlayerState::Normal);
    assert_eq!(resolve_player_state(false, false, false, WallContact::Right, true), PlayerState::Normal);
}

#[test]
fn state_machine_remembers_the_state_it_left() {
    let mut sm = PlayerStateMachine { current: PlayerState::Normal, previous: PlayerState::Normal };
    transition_player_state(&mut sm, PlayerState::Dash);
    assert_eq!(sm, PlayerStateMachine { current: PlayerState::Dash, previous: PlayerState::Normal });
    transition_player_state(&mut sm, PlayerState::Dash);
    assert_eq!(sm, PlayerStateMachine { current: PlayerState::Dash, previous: PlayerState::Normal });
    transition_player_state(&mut sm, PlayerState::Climb);
    assert_eq!(sm, PlayerStateMachine { current: PlayerState::Climb, previous: PlayerState::Dash });
    assert!(ends_dash(PlayerState::Dash, PlayerState::Climb));
    assert!(!ends_dash(PlayerState::Dash, PlayerState::Dash));
    assert!(!ends_dash(PlayerState::Normal, PlayerState::Climb));
}

#[test]
fn input_axes() {
    assert_eq!(input_axis(false, true), 1);
    assert_eq!(input_axis(true, false), -1);
    assert_eq!(input_axis(true, true), 0);
    assert_eq!(input_axis(false, false), 0);
    for (a, b) in [(false, false), (false, true), (true, false), (true, true)] {
        assert_eq!(input_axis(b, a), -input_axis(a, b));
    }
}

#[test]
fn facing_follows_walls_then_input() {
    assert_eq!(facing_after_input(true, WallContact::Left, 1), Some(-1));
    assert_eq!(facing_after_input(true, WallContact::Right, -1), Some(1));
    assert_eq!(facing_after_input(false, WallContact::Right, -1), Some(-1));
    assert_eq!(facing_after_input(true, WallContact::NoWall, 1), Some(1));
    assert_eq!(facing_after_input(false, WallContact::NoWall, 0), None);
}

#[test]
fn animation_priorities() {
    assert_eq!(choose_animation_state(standing()), AnimationState::Idle);
    assert_eq!(choose_animation_state(AnimationInputs { moving: true, ..standing() }), AnimationState::Run);
    assert_eq!(
        choose_animation_state(AnimationInputs { is_dashing: true, crouching: true, ..standing() }),
        AnimationState::Dash
    );
    assert_eq!(choose_animation_state(AnimationInputs { crouching: true, ..standing() }), AnimationState::Duck);
    let air = AnimationInputs { grounded: false, ..standing() };
    assert_eq!(choose_animation_state(AnimationInputs { rising: true, not_rising: false, ..air }), AnimationState::JumpSlow);
    assert_eq!(
        choose_animation_state(AnimationInputs { rising: true, not_rising: false, super_jump: true, ..air }),
        AnimationState::JumpFast
    );
    assert_eq!(choose_animation_state(air), AnimationState::FallSlow);
    assert_eq!(choose_animation_state(AnimationInputs { fall_fast: true, ..air }), AnimationState::FallFast);
}

#[test]
fn climbing_animations() {
    let wall = AnimationInputs {
        grounded: false,
        grab_held: true,
        wall_contact: WallContact::Right,
        ..standing()
    };
    assert_eq!(choose_animation_state(wall), AnimationState::Climb);
    assert_eq!(choose_animation_state(AnimationInputs { move_x: -1, ..wall }), AnimationState::ClimbLookback);
    assert_eq!(choose_animation_state(AnimationInputs { move_x: 1, ..wall }), AnimationState::Climb);
    assert_eq!(
        choose_animation_state(AnimationInputs { facing_left: true, facing_right: false, ..wall }),
        AnimationState::FallSlow
    );
    assert_eq!(
        choose_animation_state(AnimationInputs { wall_jump_lock_over: false, ..wall }),
        AnimationState::FallSlow
    );
}

#[test]
fn sprite_flipping() {
    assert!(sprite_flipped(AnimationState::Climb, WallContact::Left, false));
    assert!(!sprite_flipped(AnimationState::ClimbLookback, WallContact::Right, true));
    assert!(sprite_flipped(AnimationState::Run, WallContact::Right, true));
    assert!(!sprite_flipped(AnimationState::Idle, WallContact::Left, false));
}

#[test]
fn frame_counts_and_stepping() {
    assert_eq!(animation_frame_count(AnimationState::Idle), 9);
    assert_eq!(animation_frame_count(AnimationState::Run), 12);
    assert_eq!(animation_frame_count(AnimationState::Death), 13);
    assert_eq!(next_atlas_index(AnimationState::Run, 3, 0), 4);
    assert_eq!(next_atlas_index(AnimationState::Run, 11, 0), 0);
    assert_eq!(next_atlas_index(AnimationState::Duck, 0, 0), 0);
    assert_eq!(next_atlas_index(AnimationState::Climb, 5, 1), 0);
    assert_eq!(next_atlas_index(AnimationState::Climb, 2, 1), 3);
    assert_eq!(next_atlas_index(AnimationState::Climb, 0, -1), 5);
    assert_eq!(next_atlas_index(AnimationState::ClimbLookback, 2, -1), 1);
    assert_eq!(next_atlas_index(AnimationState::Climb, 4, 0), 0);
}

#[test]
fn frames_stay_inside_their_sheets() {
    let states = [
        AnimationState::Idle,
        AnimationState::Run,
        AnimationState::Duck,
        AnimationState::Dash,
        AnimationState::JumpSlow,
        AnimationState::JumpFast,
        AnimationState::FallSlow,
        AnimationState::FallFast,
        AnimationState::Climb,
        AnimationState::ClimbLookback,
        AnimationState::Death,
    ];
    for s in states {
        for i in 0..animation_frame_count(s) {
            for my in [-1i8, 0, 1] {
                assert!(next_atlas_index(s, i, my) < animation_frame_count(s));
            }
        }
    }
}

#[test]
fn hair_follows_the_head() {
    assert_eq!(hair_anim_offset(AnimationState::Idle, 0), -2);
    assert_eq!(hair_anim_offset(AnimationState::Idle, 5), -1);
    assert_eq!(hair_anim_offset(AnimationState::Idle, 9), 0);
    assert_eq!(hair_anim_offset(AnimationState::Run, 1), 0);
    assert_eq!(hair_anim_offset(AnimationState::Run, 2), -1);
    assert_eq!(hair_anim_offset(AnimationState::Run, 3), -2);
    assert_eq!(hair_anim_offset(AnimationState::Duck, 0), -4);
    assert_eq!(hair_anim_offset(AnimationState::Climb, 3), -1);
    assert_eq!(hair_anim_offset(AnimationState::Dash, 1), -2);
    assert_eq!(bangs_anim_offset(AnimationState::Run, 3), 0);
    assert_eq!(bangs_anim_offset(AnimationState::Idle, 5), -1);
    assert_eq!(bangs_anim_offset(AnimationState::Duck, 0), -4);
}

#[test]
fn wall_jumps() {
    assert_eq!(wall_jump_kind(true, 1), WallJumpKind::Climb);
    assert_eq!(wall_jump_kind(false, 0), WallJumpKind::Neutral);
    assert_eq!(wall_jump_kind(false, -1), WallJumpKind::Kick);
    assert_eq!(wall_direction(WallContact::Left), -1);
    assert_eq!(wall_direction(WallContact::Right), 1);
    assert_eq!(wall_direction(WallContact::NoWall), 0);
}

#[test]
fn dash_directions() {
    assert_eq!(dash_axes(1, 1, false, false, false), (1, 1));
    assert_eq!(dash_axes(1, -1, true, true, false), (1, 0));
    assert_eq!(dash_axes(0, -1, true, true, true), (-1, 0));
    assert_eq!(dash_axes(0, 0, false, false, false), (1, 0));
    assert_eq!(dash_axes(0, 0, false, false, true), (-1, 0));
    assert_eq!(dash_axes(0, 1, true, false, true), (0, 1));
    for mx in [-1i8, 0, 1] {
        for my in [-1i8, 0, 1] {
            for flags in 0..8 {
                let d = dash_axes(mx, my, flags & 1 != 0, flags & 2 != 0, flags & 4 != 0);
                assert!(d != (0, 0));
            }
        }
    }
}

#[test]
fn animation_step_changes_and_ticks() {
    // A change of animation starts the new sheet at its first frame, and a
    // finished tick then steps it.
    assert_eq!(animation_step(AnimationState::Run, AnimationState::Idle, Some(11), false, 0), Some(0));
    assert_eq!(animation_step(AnimationState::Run, AnimationState::Idle, Some(11), true, 0), Some(1));
    // The duck sprite has no atlas and never steps.
    assert_eq!(animation_step(AnimationState::Run, AnimationState::Duck, Some(3), true, 0), None);
    assert_eq!(animation_step(AnimationState::Duck, AnimationState::Duck, None, true, 0), None);
    // Leaving the duck sprite starts the new sheet.
    assert_eq!(animation_step(AnimationState::Duck, AnimationState::Run, None, false, 0), Some(0));
    // The same animation keeps its frame until the timer finishes.
    assert_eq!(animation_step(AnimationState::Idle, AnimationState::Idle, Some(3), false, 0), Some(3));
    assert_eq!(animation_step(AnimationState::Idle, AnimationState::Idle, Some(8), true, 0), Some(0));
    assert_eq!(animation_step(AnimationState::Climb, AnimationState::Climb, Some(2), true, -1), Some(1));
    assert_eq!(animation_step(AnimationState::Climb, AnimationState::Climb, Some(0), true, -1), Some(5));
    assert_eq!(animation_step(AnimationState::Idle, AnimationState::Idle, None, true, 0), None);
}

#[test]
fn frames_stay_in_their_sheets() {
    let states = [
        AnimationState::Idle,
        AnimationState::Run,
        AnimationState::Duck,
        AnimationState::Dash,
        AnimationState::JumpSlow,
        AnimationState::JumpFast,
        AnimationState::FallSlow,
        AnimationState::FallFast,
        AnimationState::Climb,
        AnimationState::ClimbLookback,
    ];
    let mut state = AnimationState::Idle;
    let mut frame = Some(0usize);
    for step in 0..200usize {
        let next = states[(step * 7) % states.len()];
        let next = if step % 3 == 0 { state } else { next };
        let move_y: i8 = [1, 0, -1][step % 3];
        frame = animation_step(state, next, frame, step % 2 == 0, move_y);
        state = next;
        if state == AnimationState::Duck {
            assert_eq!(frame, None);
        }
        if let Some(i) = frame {
            assert!(i < animation_frame_count(state));
        }
    }
}
