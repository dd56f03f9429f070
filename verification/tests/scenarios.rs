use shaft_core::brick::{Brick, BrickKind, ConveyorDirection, FakePhase, SpringState};
use shaft_core::geom::Vec2i;
use shaft_core::hazards::{player_ceiling_hitbox_system, player_nails_hitbox_system};
use shaft_core::physics::player_collision_system;
use shaft_core::player::{CeilingHurtState, DamageState, JumpState, Player};
use shaft_core::score::add_score;
use shaft_core::state::GameState;
use shaft_core::status::{enter_dead_system, player_out_window_die_system};
use shaft_core::tick::tick;
use shaft_core::triggers::{
    fake_brick_trigger_enter_system, normal_brick_trigger_enter_system,
    player_on_conveyor_system, spring_brick_trigger_enter_system,
};
use shaft_core::events::TickEvents;

fn arena() -> GameState {
    GameState::new(Vec2i { x: 1080, y: 1920 })
}

fn add_player(state: &mut GameState, pos: Vec2i, health: i64) -> u64 {
    let id = state.next_entity;
    state.next_entity += 1;
    let mut p = Player::new(id, state.players.len() as u32, pos);
    p.health.value = health;
    state.players.push(p);
    id
}

/// Player at rest (velocity (0, -1) unit) overlapping a normal brick
/// from above by one unit: after one resolver pass the vertical velocity
/// is zero, the player sits on the brick's top plus half its own height,
/// and health rises by one exactly once — not again while still touching.
#[test]
fn landing_on_a_normal_brick_heals_once() {
    let mut state = arena();
    // Brick top edge at y = 16; player bottom overlaps it by 2 half-units.
    let brick_id = state.next_entity;
    state.next_entity += 1;
    state
        .bricks
        .push(Brick::new_normal(brick_id, Vec2i { x: 0, y: 0 }));
    add_player(&mut state, Vec2i { x: 0, y: 46 }, 5);
    state.players[0].velocity = Vec2i { x: 0, y: -2 };

    let ev = player_collision_system(&mut state);
    assert_eq!(state.players[0].velocity.y, 0);
    assert_eq!(state.players[0].pos.y, 16 + 32);
    assert_eq!(ev.normal_triggers.len(), 1);
    normal_brick_trigger_enter_system(&mut state, &ev);
    assert_eq!(state.players[0].health.value, 6);

    // Next tick the brick has drifted up into the player: still
    // touching, so the contact is a stay, not an enter — no second
    // point, though the collision itself is still recorded.
    state.bricks[0].pos = Vec2i { x: 0, y: 2 };
    let ev2 = player_collision_system(&mut state);
    assert_eq!(ev2.collisions.len(), 1);
    assert_eq!(ev2.normal_triggers.len(), 0);
    normal_brick_trigger_enter_system(&mut state, &ev2);
    assert_eq!(state.players[0].health.value, 6);
}

/// The contact list equals exactly the set of entities overlapping the
/// player, rebuilt in full each tick: crossing two overlapping bricks in
/// sequence never leaves a stale entry and never omits a contact.
#[test]
fn last_collisions_tracks_crossing_two_bricks() {
    let mut state = arena();
    let a = state.next_entity;
    state.next_entity += 1;
    state.bricks.push(Brick::new_normal(a, Vec2i { x: -80, y: 0 }));
    let b = state.next_entity;
    state.next_entity += 1;
    state.bricks.push(Brick::new_normal(b, Vec2i { x: 120, y: 0 }));
    add_player(&mut state, Vec2i { x: -150, y: 46 }, 5);

    // Over brick A only.
    player_collision_system(&mut state);
    assert_eq!(state.players[0].last_collisions.entities, vec![a]);

    // Between the bricks, overlapping both.
    state.players[0].pos = Vec2i { x: 10, y: 46 };
    player_collision_system(&mut state);
    assert_eq!(state.players[0].last_collisions.entities, vec![a, b]);

    // Over brick B only: A's entry must not linger.
    state.players[0].pos = Vec2i { x: 180, y: 46 };
    player_collision_system(&mut state);
    assert_eq!(state.players[0].last_collisions.entities, vec![b]);
}

/// Touching the nails hitbox while not damaging costs one point and
/// attaches the damage cooldown; touching again one tick later, with the
/// timer still running, costs nothing further.
#[test]
fn nails_damage_once_per_cooldown() {
    let mut state = arena();
    let n = state.next_entity;
    state.next_entity += 1;
    state.bricks.push(Brick::new_nails(n, Vec2i { x: 0, y: 0 }));
    // Spike hitbox spans y in [15, 47]; overlap it from above.
    add_player(&mut state, Vec2i { x: 0, y: 77 }, 5);

    player_nails_hitbox_system(&mut state);
    assert_eq!(state.players[0].health.value, 4);
    assert_eq!(
        state.players[0].damage,
        DamageState::Damaging { ticks_left: 75 }
    );

    shaft_core::status::damaging_timer_system(&mut state);
    assert_eq!(
        state.players[0].damage,
        DamageState::Damaging { ticks_left: 74 }
    );

    player_nails_hitbox_system(&mut state);
    assert_eq!(state.players[0].health.value, 4);
}

/// Health reaching zero attaches the terminal dead state exactly once;
/// later passes fire no further notification.
#[test]
fn death_fires_exactly_once() {
    let mut state = arena();
    add_player(&mut state, Vec2i { x: 0, y: 0 }, 0);
    let mut ev = TickEvents::new();
    enter_dead_system(&mut state, &mut ev);
    assert!(state.players[0].dead);
    assert_eq!(ev.player_enter_dead.len(), 1);
    assert_eq!(ev.player_enter_dead[0].handle, 0);

    enter_dead_system(&mut state, &mut ev);
    assert_eq!(ev.player_enter_dead.len(), 1);

    // A whole tick over the dead player adds nothing either.
    let tick_ev = tick(&mut state);
    assert_eq!(tick_ev.player_enter_dead.len(), 0);
    assert!(state.players[0].dead);
}

/// Duplicate triggers while a fake brick is pending leave the delay
/// untouched: no reset, no re-scheduling.
#[test]
fn fake_brick_duplicate_trigger_is_ignored() {
    let mut state = arena();
    let f = state.next_entity;
    state.next_entity += 1;
    state.bricks.push(Brick::new_fake(f, Vec2i { x: 0, y: 0 }));
    // Fake brick top edge at 18.
    add_player(&mut state, Vec2i { x: 0, y: 48 }, 5);

    let ev = player_collision_system(&mut state);
    assert_eq!(ev.fake_triggers.len(), 1);
    fake_brick_trigger_enter_system(&mut state, &ev);
    assert_eq!(
        state.bricks[0].kind,
        BrickKind::Fake {
            phase: FakePhase::PendingFlip { ticks_left: 10 }
        }
    );

    // Burn some of the delay, then hit it with the same trigger again.
    shaft_core::status::fake_brick_flip_system(&mut state);
    fake_brick_trigger_enter_system(&mut state, &ev);
    assert_eq!(
        state.bricks[0].kind,
        BrickKind::Fake {
            phase: FakePhase::PendingFlip { ticks_left: 9 }
        }
    );
}

/// The fake brick's full lifecycle: delay, colliderless flip, idle again.
#[test]
fn fake_brick_lifecycle_runs_to_idle() {
    let mut state = arena();
    let f = state.next_entity;
    state.next_entity += 1;
    state.bricks.push(Brick::new_fake(f, Vec2i { x: 0, y: 0 }));
    add_player(&mut state, Vec2i { x: 0, y: 48 }, 5);
    let ev = player_collision_system(&mut state);
    fake_brick_trigger_enter_system(&mut state, &ev);

    for _ in 0..10 {
        shaft_core::status::fake_brick_flip_system(&mut state);
    }
    assert_eq!(
        state.bricks[0].kind,
        BrickKind::Fake {
            phase: FakePhase::Flipping { ticks_left: 30 }
        }
    );

    // While flipping, the collider is withdrawn: the scan finds nothing.
    let ev2 = player_collision_system(&mut state);
    assert_eq!(ev2.collisions.len(), 0);
    assert!(state.players[0].last_collisions.entities.is_empty());

    for _ in 0..30 {
        shaft_core::status::animate_fake_brick_system(&mut state);
    }
    assert_eq!(state.bricks[0].kind, BrickKind::Fake { phase: FakePhase::Idle });
}

/// A spring entered from above springs, heals the player by one and
/// grants a jump window; while jumping, the resolver only re-establishes
/// the rise speed.
#[test]
fn spring_grants_health_and_jump() {
    let mut state = arena();
    let s = state.next_entity;
    state.next_entity += 1;
    state.bricks.push(Brick::new_spring(s, Vec2i { x: 0, y: 0 }));
    // Spring top edge at 22.
    add_player(&mut state, Vec2i { x: 0, y: 52 }, 5);

    let ev = player_collision_system(&mut state);
    assert_eq!(ev.spring_triggers.len(), 1);
    spring_brick_trigger_enter_system(&mut state, &ev);
    assert_eq!(state.players[0].health.value, 6);
    assert_eq!(
        state.players[0].jump,
        JumpState::Jumping { ticks_left: 13 }
    );
    assert_eq!(
        state.bricks[0].kind,
        BrickKind::Spring {
            state: SpringState::Sprung { ticks_left: 20 }
        }
    );

    player_collision_system(&mut state);
    assert_eq!(state.players[0].velocity.y, 8);
}

/// Standing on a conveyor attaches the marker and biases the steering
/// velocity; health is untouched — a conveyor only moves the player.
/// Leaving contact detaches the marker.
#[test]
fn conveyor_attaches_and_detaches_marker() {
    let mut state = arena();
    let c = state.next_entity;
    state.next_entity += 1;
    state.bricks.push(Brick::new_conveyor(
        c,
        ConveyorDirection::Left,
        Vec2i { x: 0, y: 0 },
    ));
    add_player(&mut state, Vec2i { x: 0, y: 46 }, 5);

    let ev = player_collision_system(&mut state);
    player_on_conveyor_system(&mut state, &ev);
    assert_eq!(state.players[0].conveyor_moved, Some(ConveyorDirection::Left));
    assert_eq!(state.players[0].health.value, 5);

    // Next tick the conveyor has drifted up into the player, who was
    // snapped to exact touch: still standing, the marker stays and
    // health is still untouched.
    state.bricks[0].pos = Vec2i { x: 0, y: 2 };
    let ev2 = player_collision_system(&mut state);
    player_on_conveyor_system(&mut state, &ev2);
    assert_eq!(state.players[0].conveyor_moved, Some(ConveyorDirection::Left));
    assert_eq!(state.players[0].health.value, 5);

    // The conveyor biases the controller's horizontal velocity.
    shaft_core::status::player_controller_system(&mut state);
    assert_eq!(state.players[0].velocity.x, -4);

    // Off the conveyor: the marker detaches the tick contact ends.
    state.players[0].pos = Vec2i { x: 500, y: 46 };
    let ev3 = player_collision_system(&mut state);
    player_on_conveyor_system(&mut state, &ev3);
    assert_eq!(state.players[0].conveyor_moved, None);
}

/// Touching the ceiling strip costs one point, forces a strong downward
/// velocity and opens the colliderless knockback window.
#[test]
fn ceiling_knocks_back_and_damages() {
    let mut state = arena();
    state.ceiling = Some(shaft_core::brick::Ceiling::new(Vec2i { x: 0, y: 0 }));
    add_player(&mut state, Vec2i { x: 0, y: 10 }, 5);

    player_ceiling_hitbox_system(&mut state);
    assert_eq!(state.players[0].health.value, 4);
    assert_eq!(
        state.players[0].damage,
        DamageState::Damaging { ticks_left: 75 }
    );
    assert_eq!(state.players[0].velocity.y, -16);
    assert_eq!(
        state.players[0].ceiling_hurt,
        CeilingHurtState::Hurting { ticks_left: 8 }
    );

    // While knocked back the player has no collider: the nails pass and
    // a second ceiling pass leave it alone.
    player_ceiling_hitbox_system(&mut state);
    assert_eq!(state.players[0].health.value, 4);
}

/// Escaping the visible play area forces health to zero.
#[test]
fn leaving_the_window_is_fatal() {
    let mut state = arena();
    add_player(&mut state, Vec2i { x: 0, y: -2000 }, 7);
    player_out_window_die_system(&mut state);
    assert_eq!(state.players[0].health.value, 0);
    let mut ev = TickEvents::new();
    enter_dead_system(&mut state, &mut ev);
    assert!(state.players[0].dead);
}

/// The shared score ticks up when its interval elapses and a player is
/// alive, and each living player mirrors it; with everyone dead it
/// stands still.
#[test]
fn score_increments_while_someone_is_alive() {
    let mut state = arena();
    add_player(&mut state, Vec2i { x: 0, y: 0 }, 5);
    state.score_timer.ticks_left = 1;
    add_score(&mut state);
    assert_eq!(state.scoreboard.score, 1);
    assert_eq!(state.players[0].score.score, 1);
    assert_eq!(state.score_timer.ticks_left, 180);

    state.players[0].dead = true;
    state.score_timer.ticks_left = 1;
    add_score(&mut state);
    assert_eq!(state.scoreboard.score, 1);
}

/// The resolver is translation invariant: shifting the player and every
/// brick by one common vector yields the same contact set and events,
/// and a corrected position shifted by exactly that vector.
#[test]
fn resolver_is_translation_invariant() {
    let build = |dx: i64, dy: i64| {
        let mut state = arena();
        let a = state.next_entity;
        state.next_entity += 1;
        state
            .bricks
            .push(Brick::new_normal(a, Vec2i { x: dx, y: dy }));
        let b = state.next_entity;
        state.next_entity += 1;
        state
            .bricks
            .push(Brick::new_spring(b, Vec2i { x: 150 + dx, y: dy }));
        add_player(&mut state, Vec2i { x: 40 + dx, y: 46 + dy }, 5);
        state.players[0].velocity = Vec2i { x: 2, y: -2 };
        state
    };
    let mut base = build(0, 0);
    let mut moved = build(-370, 512);
    let ev_base = player_collision_system(&mut base);
    let ev_moved = player_collision_system(&mut moved);
    assert_eq!(
        base.players[0].last_collisions.entities,
        moved.players[0].last_collisions.entities
    );
    assert_eq!(
        base.players[0].last_collisions.collisions,
        moved.players[0].last_collisions.collisions
    );
    assert_eq!(base.players[0].velocity, moved.players[0].velocity);
    assert_eq!(base.players[0].pos.x - 0, moved.players[0].pos.x - (-370));
    assert_eq!(base.players[0].pos.y - 0, moved.players[0].pos.y - 512);
    assert_eq!(ev_base.collisions.len(), ev_moved.collisions.len());
    assert_eq!(ev_base.normal_triggers.len(), ev_moved.normal_triggers.len());
    assert_eq!(ev_base.spring_triggers.len(), ev_moved.spring_triggers.len());
}

/// A whole tick is a pure function of the state: running the same start
/// twice gives identical positions, health and score.
#[test]
fn tick_replays_identically() {
    let build = || {
        let mut state = arena();
        shaft_core::level::spawn_bricks(&mut state);
        let id = state.next_entity;
        state.next_entity += 1;
        state.players.push(Player::new(id, 0, Vec2i { x: 0, y: 400 }));
        state
    };
    let mut a = build();
    let mut b = build();
    for _ in 0..120 {
        tick(&mut a);
        tick(&mut b);
    }
    assert_eq!(a.players[0].pos, b.players[0].pos);
    assert_eq!(a.players[0].velocity, b.players[0].velocity);
    assert_eq!(a.players[0].health.value, b.players[0].health.value);
    assert_eq!(a.scoreboard.score, b.scoreboard.score);
    assert_eq!(a.bricks.len(), b.bricks.len());
    for i in 0..a.bricks.len() {
        assert_eq!(a.bricks[i], b.bricks[i]);
    }
}
