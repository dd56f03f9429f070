use shaft_core::animation::{get_next_animation, PlayerAnimation};
use shaft_core::brick::{Brick, BrickKind, WallPositionReset};
use shaft_core::constants::{INPUT_LEFT, INPUT_RIGHT};
use shaft_core::geom::Vec2i;
use shaft_core::input::{network_input_system, userinput_system, userinput_system_2};
use shaft_core::physics::{velocity_system, wall_reset_position_system};
use shaft_core::player::Player;
use shaft_core::state::{GameState, InGameMode, InGameSetting};

fn arena2() -> GameState {
    GameState::new(Vec2i { x: 1080, y: 1920 })
}

#[test]
fn packed_input_byte_round_trips() {
    assert_eq!(network_input_system(false, false), 0);
    assert_eq!(network_input_system(true, false), INPUT_LEFT);
    assert_eq!(network_input_system(false, true), INPUT_RIGHT);
    assert_eq!(network_input_system(true, true), INPUT_LEFT | INPUT_RIGHT);
}

#[test]
fn offline_input_reaches_every_player() {
    let mut state = arena2();
    for h in 0..2u32 {
        let id = state.next_entity;
        state.next_entity += 1;
        state
            .players
            .push(Player::new(id, h, Vec2i { x: 64 * h as i64, y: 400 }));
    }
    userinput_system(&mut state, Vec2i { x: -1, y: 0 });
    assert_eq!(state.players[0].userinput.move_accelection.x, -1);
    assert_eq!(state.players[1].userinput.move_accelection.x, -1);
}

#[test]
fn online_input_decodes_per_handle() {
    let mut state = arena2();
    for h in 0..2u32 {
        let id = state.next_entity;
        state.next_entity += 1;
        state
            .players
            .push(Player::new(id, h, Vec2i { x: 64 * h as i64, y: 400 }));
    }
    let setting = InGameSetting {
        mode: InGameMode::Online,
        num_players: 2,
    };
    let inputs = vec![INPUT_RIGHT, INPUT_LEFT | INPUT_RIGHT];
    userinput_system_2(&mut state, setting, Vec2i { x: 0, y: 0 }, &inputs);
    assert_eq!(state.players[0].userinput.move_accelection.x, 1);
    // Both directions held cancel out.
    assert_eq!(state.players[1].userinput.move_accelection.x, 0);
}

#[test]
fn session_settings_switch_modes() {
    let mut s = InGameSetting::new_offline_1p();
    assert_eq!(s.mode, InGameMode::Offline);
    assert_eq!(s.num_players, 1);
    s.set_online_2p();
    assert_eq!(s.mode, InGameMode::Online);
    assert_eq!(s.num_players, 2);
    s.set_offline_1p();
    assert_eq!(s, InGameSetting::new_offline_1p());
}

#[test]
fn animation_follows_direction_and_status() {
    let right = Vec2i { x: 1, y: 0 };
    let left = Vec2i { x: -1, y: 0 };
    let idle = Vec2i { x: 0, y: 0 };
    assert_eq!(
        get_next_animation(PlayerAnimation::Idle, right, false, false),
        PlayerAnimation::RightRun
    );
    assert_eq!(
        get_next_animation(PlayerAnimation::Idle, left, true, false),
        PlayerAnimation::FlyLeftRun
    );
    assert_eq!(
        get_next_animation(PlayerAnimation::Idle, right, true, true),
        PlayerAnimation::FlyHurtRightRun
    );
    assert_eq!(
        get_next_animation(PlayerAnimation::RightRun, idle, false, true),
        PlayerAnimation::HurtIdle
    );
}

#[test]
fn drifting_wall_teleports_back_at_its_target() {
    let mut state = arena2();
    let id = state.next_entity;
    state.next_entity += 1;
    state.bricks.push(Brick::new_wall(
        id,
        Vec2i { x: 522, y: -2 },
        Some(WallPositionReset {
            restore_position: Vec2i { x: 522, y: -1856 },
            target_y: 0,
        }),
    ));
    // One drift step up reaches the target window; the recycler snaps
    // the segment back down.
    velocity_system(&mut state);
    assert_eq!(state.bricks[0].pos.y, 0);
    wall_reset_position_system(&mut state);
    assert_eq!(state.bricks[0].pos, Vec2i { x: 522, y: -1856 });
    match state.bricks[0].kind {
        BrickKind::Wall { reset: Some(r) } => assert_eq!(r.target_y, 0),
        _ => panic!("expected a wall"),
    }
}

#[test]
fn spawned_level_matches_the_generator() {
    let mut state = arena2();
    shaft_core::level::spawn_bricks_2(&mut state, 540, 960);
    let placements = shaft_core::level::generate_level(5, 3, 4, 540, 960, 500);
    assert_eq!(state.bricks.len(), 500);
    for (i, p) in placements.iter().enumerate() {
        let b = &state.bricks[i];
        assert_eq!(b.id, i as u64);
        if p.kind == shaft_core::level::BrickType::Nails {
            assert_eq!(b.pos, Vec2i { x: 2 * p.x as i64, y: 2 * p.y as i64 + 31 });
        } else {
            assert_eq!(b.pos, Vec2i { x: 2 * p.x as i64, y: 2 * p.y as i64 });
        }
    }
}

#[test]
fn spawned_session_is_complete() {
    let mut state = arena2();
    shaft_core::level::spawn_players(&mut state, 2);
    shaft_core::level::spawn_walls(&mut state);
    shaft_core::level::spawn_ceiling(&mut state);
    assert_eq!(state.players.len(), 2);
    assert_eq!(state.players[0].pos, Vec2i { x: 0, y: 400 });
    assert_eq!(state.players[1].pos, Vec2i { x: 64, y: 400 });
    assert_eq!(state.players[1].handle, 1);
    assert_eq!(state.bricks.len(), 4);
    // Right-side wall segment sits half a wall width in from the edge.
    assert_eq!(state.bricks[0].pos, Vec2i { x: 1080 / 2 - 18, y: 0 });
    let c = state.ceiling.expect("ceiling spawned");
    // Just below the status bar strip at the top of the window.
    assert_eq!(c.pos, Vec2i { x: 0, y: 1920 / 2 - 64 - 16 });
}
