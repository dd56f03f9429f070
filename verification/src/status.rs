//! Status state machines and tick timers: steering velocity, the
//! grounded/flying derivation, animation selection, the countdowns of the
//! damage, jump and ceiling-knockback windows, the fake-brick flip and
//! spring-bounce lifecycles, the out-of-bounds fallback, and the death
//! check.

use vstd::prelude::*;
use crate::animation::next_animation_spec;
use crate::brick::{Brick, BrickKind, ConveyorDirection, FakePhase, SpringState};
use crate::constants::{
    CONVEYOR_SPEED, FAKE_FLIP_TICKS, FLY_MOVE_SPEED, GROUND_MOVE_SPEED, POS_LIMIT,
};
use crate::events::{PlayerEnterDeadEvent, TickEvents};
use crate::health::health_clamp;
use crate::player::{CeilingHurtState, DamageState, JumpState, MovementState, Player, PlayerView};
use crate::state::GameState;

verus! {

/// What the controller makes of one player: the horizontal velocity is
/// the steering input scaled by the movement state's speed — flying
/// halves the control authority — plus the conveyor bias while the
/// moved-by-conveyor marker is attached.
pub open spec fn controller_step(p: PlayerView) -> PlayerView {
    if p.dead {
        p
    } else {
        let ms: int = if p.movement is Flying {
            FLY_MOVE_SPEED as int
        } else {
            GROUND_MOVE_SPEED as int
        };
        let bias: int = match p.conveyor_moved {
            Some(ConveyorDirection::Left) => -(CONVEYOR_SPEED as int),
            Some(ConveyorDirection::Right) => CONVEYOR_SPEED as int,
            None => 0,
        };
        PlayerView { vx: ms * p.userinput.move_accelection.x + bias, ..p }
    }
}

/// Sets each living player's horizontal velocity from its steering input,
/// movement state and conveyor marker.
#[verifier::loop_isolation(false)]
pub fn player_controller_system(state: &mut GameState)
    requires
        old(state).wf(),
    ensures
        final(state).wf(),
        final(state).players@.len() == old(state).players@.len(),
        forall|i: int|
            0 <= i < old(state).players@.len() ==> (#[trigger] final(state).players@[i])@
                == controller_step(old(state).players@[i]@),
        final(state).bricks == old(state).bricks,
        final(state).ceiling == old(state).ceiling,
        final(state).scoreboard == old(state).scoreboard,
        final(state).score_timer == old(state).score_timer,
        final(state).bounds == old(state).bounds,
        final(state).next_entity == old(state).next_entity,
{
    let ghost players0 = old(state).players@;
    let np = state.players.len();
    let mut i: usize = 0;
    while i < np
        invariant
            i <= np,
            np == players0.len(),
            state.players@.len() == players0.len(),
            state.wf(),
            forall|k: int|
                0 <= k < i ==> (#[trigger] state.players@[k])@ == controller_step(players0[k]@),
            forall|k: int| i <= k < np ==> state.players@[k] == players0[k],
            state.bricks == old(state).bricks,
            state.ceiling == old(state).ceiling,
            state.scoreboard == old(state).scoreboard,
            state.score_timer == old(state).score_timer,
            state.bounds == old(state).bounds,
            state.next_entity == old(state).next_entity,
        decreases np - i,
    {
        if !state.players[i].dead {
            proof {
                assert(old(state).players@[i as int].wf());
            }
            let ix = state.players[i].userinput.move_accelection.x;
            proof {
                assert(players0[i as int].wf());
                assert(-1 <= ix <= 1);
            }
            let speed: i64 = if matches!(state.players[i].movement, MovementState::Flying) {
                FLY_MOVE_SPEED
            } else {
                GROUND_MOVE_SPEED
            };
            proof {
                assert(-8 <= speed * ix <= 8) by (nonlinear_arith)
                    requires
                        -1 <= ix <= 1,
                        0 <= speed <= 8,
                ;
            }
            let base = speed * ix;
            let bias: i64 = match state.players[i].conveyor_moved {
                Some(ConveyorDirection::Left) => -CONVEYOR_SPEED,
                Some(ConveyorDirection::Right) => CONVEYOR_SPEED,
                None => 0,
            };
            let pm = &mut state.players[i];
            pm.velocity = crate::geom::Vec2i { x: base + bias, y: pm.velocity.y };
            proof {
                assert(state.players@[i as int]@ =~= controller_step(players0[i as int]@));
            }
        }
        i += 1;
    }
}

/// What the status derivation makes of one player: grounded exactly when
/// the vertical velocity is zero, flying otherwise.  These states drive
/// animation selection and control authority only.
pub open spec fn movement_step(p: PlayerView) -> PlayerView {
    if p.dead {
        p
    } else {
        PlayerView {
            movement: if p.vy == 0 {
                MovementState::Grounded
            } else {
                MovementState::Flying
            },
            ..p
        }
    }
}

/// Derives each living player's grounded/flying state from its vertical
/// velocity.
#[verifier::loop_isolation(false)]
pub fn update_movement_system(state: &mut GameState)
    requires
        old(state).wf(),
    ensures
        final(state).wf(),
        final(state).players@.len() == old(state).players@.len(),
        forall|i: int|
            0 <= i < old(state).players@.len() ==> (#[trigger] final(state).players@[i])@
                == movement_step(old(state).players@[i]@),
        final(state).bricks == old(state).bricks,
        final(state).ceiling == old(state).ceiling,
        final(state).scoreboard == old(state).scoreboard,
        final(state).score_timer == old(state).score_timer,
        final(state).bounds == old(state).bounds,
        final(state).next_entity == old(state).next_entity,
{
    let ghost players0 = old(state).players@;
    let np = state.players.len();
    let mut i: usize = 0;
    while i < np
        invariant
            i <= np,
            np == players0.len(),
            state.players@.len() == players0.len(),
            state.wf(),
            forall|k: int|
                0 <= k < i ==> (#[trigger] state.players@[k])@ == movement_step(players0[k]@),
            forall|k: int| i <= k < np ==> state.players@[k] == players0[k],
            state.bricks == old(state).bricks,
            state.ceiling == old(state).ceiling,
            state.scoreboard == old(state).scoreboard,
            state.score_timer == old(state).score_timer,
            state.bounds == old(state).bounds,
            state.next_entity == old(state).next_entity,
        decreases np - i,
    {
        if !state.players[i].dead {
            let pm = &mut state.players[i];
            pm.movement = if pm.velocity.y == 0 {
                MovementState::Grounded
            } else {
                MovementState::Flying
            };
            proof {
                assert(state.players@[i as int]@ =~= movement_step(players0[i as int]@));
            }
        }
        i += 1;
    }
}

/// What the animation pass makes of one player: the next animation from
/// steering direction and the flying and damaging statuses.
pub open spec fn animate_step(p: PlayerView) -> PlayerView {
    if p.dead {
        p
    } else {
        PlayerView {
            animation: next_animation_spec(
                p.animation,
                p.userinput.move_accelection,
                p.movement is Flying,
                p.damage is Damaging,
            ),
            ..p
        }
    }
}

/// Selects each living player's animation for the presentation layer.
#[verifier::loop_isolation(false)]
pub fn animate_player_system(state: &mut GameState)
    requires
        old(state).wf(),
    ensures
        final(state).wf(),
        final(state).players@.len() == old(state).players@.len(),
        forall|i: int|
            0 <= i < old(state).players@.len() ==> (#[trigger] final(state).players@[i])@
                == animate_step(old(state).players@[i]@),
        final(state).bricks == old(state).bricks,
        final(state).ceiling == old(state).ceiling,
        final(state).scoreboard == old(state).scoreboard,
        final(state).score_timer == old(state).score_timer,
        final(state).bounds == old(state).bounds,
        final(state).next_entity == old(state).next_entity,
{
    let ghost players0 = old(state).players@;
    let np = state.players.len();
    let mut i: usize = 0;
    while i < np
        invariant
            i <= np,
            np == players0.len(),
            state.players@.len() == players0.len(),
            state.wf(),
            forall|k: int|
                0 <= k < i ==> (#[trigger] state.players@[k])@ == animate_step(players0[k]@),
            forall|k: int| i <= k < np ==> state.players@[k] == players0[k],
            state.bricks == old(state).bricks,
            state.ceiling == old(state).ceiling,
            state.scoreboard == old(state).scoreboard,
            state.score_timer == old(state).score_timer,
            state.bounds == old(state).bounds,
            state.next_entity == old(state).next_entity,
        decreases np - i,
    {
        if !state.players[i].dead {
            let current = state.players[i].animation;
            let direction = state.players[i].userinput.move_accelection;
            let is_flying = matches!(state.players[i].movement, MovementState::Flying);
            let is_damaging = matches!(state.players[i].damage, DamageState::Damaging { .. });
            let next = crate::animation::get_next_animation(
                current,
                direction,
                is_flying,
                is_damaging,
            );
            let pm = &mut state.players[i];
            pm.animation = next;
            proof {
                assert(state.players@[i as int]@ =~= animate_step(players0[i as int]@));
            }
        }
        i += 1;
    }
}

/// One tick off the damage cooldown; the tag clears with its timer.
pub open spec fn damaging_timer_step(p: PlayerView) -> PlayerView {
    if p.dead {
        p
    } else {
        match p.damage {
            DamageState::Damaging { ticks_left } => if ticks_left <= 1 {
                PlayerView { damage: DamageState::Clear, ..p }
            } else {
                PlayerView {
                    damage: DamageState::Damaging { ticks_left: (ticks_left - 1) as u32 },
                    ..p
                }
            },
            DamageState::Clear => p,
        }
    }
}

/// One tick off the jump window; the tag clears with its timer.
pub open spec fn jumping_timer_step(p: PlayerView) -> PlayerView {
    if p.dead {
        p
    } else {
        match p.jump {
            JumpState::Jumping { ticks_left } => if ticks_left <= 1 {
                PlayerView { jump: JumpState::Clear, ..p }
            } else {
                PlayerView { jump: JumpState::Jumping { ticks_left: (ticks_left - 1) as u32 }, ..p }
            },
            JumpState::Clear => p,
        }
    }
}

/// One tick off the ceiling-knockback window; its end restores the
/// player's collider.
pub open spec fn ceiling_hurt_timer_step(p: PlayerView) -> PlayerView {
    if p.dead {
        p
    } else {
        match p.ceiling_hurt {
            CeilingHurtState::Hurting { ticks_left } => if ticks_left <= 1 {
                PlayerView { ceiling_hurt: CeilingHurtState::Clear, ..p }
            } else {
                PlayerView {
                    ceiling_hurt: CeilingHurtState::Hurting { ticks_left: (ticks_left - 1) as u32 },
                    ..p
                }
            },
            CeilingHurtState::Clear => p,
        }
    }
}

/// Counts each living player's damage cooldown down and clears it on
/// expiry.
#[verifier::loop_isolation(false)]
pub fn damaging_timer_system(state: &mut GameState)
    requires
        old(state).wf(),
    ensures
        final(state).wf(),
        final(state).players@.len() == old(state).players@.len(),
        forall|i: int|
            0 <= i < old(state).players@.len() ==> (#[trigger] final(state).players@[i])@
                == damaging_timer_step(old(state).players@[i]@),
        final(state).bricks == old(state).bricks,
        final(state).ceiling == old(state).ceiling,
        final(state).scoreboard == old(state).scoreboard,
        final(state).score_timer == old(state).score_timer,
        final(state).bounds == old(state).bounds,
        final(state).next_entity == old(state).next_entity,
{
    let ghost players0 = old(state).players@;
    let np = state.players.len();
    let mut i: usize = 0;
    while i < np
        invariant
            i <= np,
            np == players0.len(),
            state.players@.len() == players0.len(),
            state.wf(),
            forall|k: int|
                0 <= k < i ==> (#[trigger] state.players@[k])@ == damaging_timer_step(
                    players0[k]@,
                ),
            forall|k: int| i <= k < np ==> state.players@[k] == players0[k],
            state.bricks == old(state).bricks,
            state.ceiling == old(state).ceiling,
            state.scoreboard == old(state).scoreboard,
            state.score_timer == old(state).score_timer,
            state.bounds == old(state).bounds,
            state.next_entity == old(state).next_entity,
        decreases np - i,
    {
        if !state.players[i].dead {
            if let DamageState::Damaging { ticks_left } = state.players[i].damage {
                let pm = &mut state.players[i];
                pm.damage = if ticks_left <= 1 {
                    DamageState::Clear
                } else {
                    DamageState::Damaging { ticks_left: ticks_left - 1 }
                };
            }
            proof {
                assert(state.players@[i as int]@ =~= damaging_timer_step(players0[i as int]@));
            }
        }
        i += 1;
    }
}

/// Counts each living player's jump window down and clears it on expiry.
#[verifier::loop_isolation(false)]
pub fn jumping_timer_system(state: &mut GameState)
    requires
        old(state).wf(),
    ensures
        final(state).wf(),
        final(state).players@.len() == old(state).players@.len(),
        forall|i: int|
            0 <= i < old(state).players@.len() ==> (#[trigger] final(state).players@[i])@
                == jumping_timer_step(old(state).players@[i]@),
        final(state).bricks == old(state).bricks,
        final(state).ceiling == old(state).ceiling,
        final(state).scoreboard == old(state).scoreboard,
        final(state).score_timer == old(state).score_timer,
        final(state).bounds == old(state).bounds,
        final(state).next_entity == old(state).next_entity,
{
    let ghost players0 = old(state).players@;
    let np = state.players.len();
    let mut i: usize = 0;
    while i < np
        invariant
            i <= np,
            np == players0.len(),
            state.players@.len() == players0.len(),
            state.wf(),
            forall|k: int|
                0 <= k < i ==> (#[trigger] state.players@[k])@ == jumping_timer_step(players0[k]@),
            forall|k: int| i <= k < np ==> state.players@[k] == players0[k],
            state.bricks == old(state).bricks,
            state.ceiling == old(state).ceiling,
            state.scoreboard == old(state).scoreboard,
            state.score_timer == old(state).score_timer,
            state.bounds == old(state).bounds,
            state.next_entity == old(state).next_entity,
        decreases np - i,
    {
        if !state.players[i].dead {
            if let JumpState::Jumping { ticks_left } = state.players[i].jump {
                let pm = &mut state.players[i];
                pm.jump = if ticks_left <= 1 {
                    JumpState::Clear
                } else {
                    JumpState::Jumping { ticks_left: ticks_left - 1 }
                };
            }
            proof {
                assert(state.players@[i as int]@ =~= jumping_timer_step(players0[i as int]@));
            }
        }
        i += 1;
    }
}

/// Counts each living player's ceiling-knockback window down; on expiry
/// the state clears and the player's collider is back.
#[verifier::loop_isolation(false)]
pub fn celling_hurting_player_system(state: &mut GameState)
    requires
        old(state).wf(),
    ensures
        final(state).wf(),
        final(state).players@.len() == old(state).players@.len(),
        forall|i: int|
            0 <= i < old(state).players@.len() ==> (#[trigger] final(state).players@[i])@
                == ceiling_hurt_timer_step(old(state).players@[i]@),
        final(state).bricks == old(state).bricks,
        final(state).ceiling == old(state).ceiling,
        final(state).scoreboard == old(state).scoreboard,
        final(state).score_timer == old(state).score_timer,
        final(state).bounds == old(state).bounds,
        final(state).next_entity == old(state).next_entity,
{
    let ghost players0 = old(state).players@;
    let np = state.players.len();
    let mut i: usize = 0;
    while i < np
        invariant
            i <= np,
            np == players0.len(),
            state.players@.len() == players0.len(),
            state.wf(),
            forall|k: int|
                0 <= k < i ==> (#[trigger] state.players@[k])@ == ceiling_hurt_timer_step(
                    players0[k]@,
                ),
            forall|k: int| i <= k < np ==> state.players@[k] == players0[k],
            state.bricks == old(state).bricks,
            state.ceiling == old(state).ceiling,
            state.scoreboard == old(state).scoreboard,
            state.score_timer == old(state).score_timer,
            state.bounds == old(state).bounds,
            state.next_entity == old(state).next_entity,
        decreases np - i,
    {
        if !state.players[i].dead {
            if let CeilingHurtState::Hurting { ticks_left } = state.players[i].ceiling_hurt {
                let pm = &mut state.players[i];
                pm.ceiling_hurt = if ticks_left <= 1 {
                    CeilingHurtState::Clear
                } else {
                    CeilingHurtState::Hurting { ticks_left: ticks_left - 1 }
                };
            }
            proof {
                assert(state.players@[i as int]@ =~= ceiling_hurt_timer_step(players0[i as int]@));
            }
        }
        i += 1;
    }
}

/// One tick off a fake brick's flip delay; on expiry the flip starts and
/// the collider is withdrawn.
pub open spec fn fake_flip_delay_step(b: Brick) -> Brick {
    match b.kind {
        BrickKind::Fake { phase: FakePhase::PendingFlip { ticks_left } } => if ticks_left <= 1 {
            Brick {
                kind: BrickKind::Fake { phase: FakePhase::Flipping { ticks_left: FAKE_FLIP_TICKS } },
                ..b
            }
        } else {
            Brick {
                kind: BrickKind::Fake {
                    phase: FakePhase::PendingFlip { ticks_left: (ticks_left - 1) as u32 },
                },
                ..b
            }
        },
        _ => b,
    }
}

/// One tick off a fake brick's flip; on expiry the brick returns to idle
/// and its collider is back.
pub open spec fn fake_flip_end_step(b: Brick) -> Brick {
    match b.kind {
        BrickKind::Fake { phase: FakePhase::Flipping { ticks_left } } => if ticks_left <= 1 {
            Brick { kind: BrickKind::Fake { phase: FakePhase::Idle }, ..b }
        } else {
            Brick {
                kind: BrickKind::Fake {
                    phase: FakePhase::Flipping { ticks_left: (ticks_left - 1) as u32 },
                },
                ..b
            }
        },
        _ => b,
    }
}

/// One tick off a spring brick's bounce; on expiry it returns to idle.
pub open spec fn spring_end_step(b: Brick) -> Brick {
    match b.kind {
        BrickKind::Spring { state: SpringState::Sprung { ticks_left } } => if ticks_left <= 1 {
            Brick { kind: BrickKind::Spring { state: SpringState::Idle }, ..b }
        } else {
            Brick {
                kind: BrickKind::Spring {
                    state: SpringState::Sprung { ticks_left: (ticks_left - 1) as u32 },
                },
                ..b
            }
        },
        _ => b,
    }
}

/// Counts each pending fake brick's flip delay down; on expiry the brick
/// starts flipping and its collider is withdrawn.
#[verifier::loop_isolation(false)]
pub fn fake_brick_flip_system(state: &mut GameState)
    requires
        old(state).wf(),
    ensures
        final(state).wf(),
        final(state).bricks@.len() == old(state).bricks@.len(),
        forall|i: int|
            0 <= i < old(state).bricks@.len() ==> #[trigger] final(state).bricks@[i]
                == fake_flip_delay_step(old(state).bricks@[i]),
        final(state).players == old(state).players,
        final(state).ceiling == old(state).ceiling,
        final(state).scoreboard == old(state).scoreboard,
        final(state).score_timer == old(state).score_timer,
        final(state).bounds == old(state).bounds,
        final(state).next_entity == old(state).next_entity,
{
    let ghost bricks0 = old(state).bricks@;
    let nb = state.bricks.len();
    let mut j: usize = 0;
    while j < nb
        invariant
            j <= nb,
            nb == bricks0.len(),
            state.bricks@.len() == bricks0.len(),
            state.wf(),
            forall|k: int|
                0 <= k < j ==> #[trigger] state.bricks@[k] == fake_flip_delay_step(bricks0[k]),
            forall|k: int| j <= k < nb ==> state.bricks@[k] == bricks0[k],
            state.players == old(state).players,
            state.ceiling == old(state).ceiling,
            state.scoreboard == old(state).scoreboard,
            state.score_timer == old(state).score_timer,
            state.bounds == old(state).bounds,
            state.next_entity == old(state).next_entity,
        decreases nb - j,
    {
        if let BrickKind::Fake { phase: FakePhase::PendingFlip { ticks_left } } =
            state.bricks[j].kind {
            let bm = &mut state.bricks[j];
            bm.kind = if ticks_left <= 1 {
                BrickKind::Fake { phase: FakePhase::Flipping { ticks_left: FAKE_FLIP_TICKS } }
            } else {
                BrickKind::Fake { phase: FakePhase::PendingFlip { ticks_left: ticks_left - 1 } }
            };
        }
        j += 1;
    }
}

/// Counts each flipping fake brick's animation down; on expiry the brick
/// returns to idle and its collider is restored.
#[verifier::loop_isolation(false)]
pub fn animate_fake_brick_system(state: &mut GameState)
    requires
        old(state).wf(),
    ensures
        final(state).wf(),
        final(state).bricks@.len() == old(state).bricks@.len(),
        forall|i: int|
            0 <= i < old(state).bricks@.len() ==> #[trigger] final(state).bricks@[i]
                == fake_flip_end_step(old(state).bricks@[i]),
        final(state).players == old(state).players,
        final(state).ceiling == old(state).ceiling,
        final(state).scoreboard == old(state).scoreboard,
        final(state).score_timer == old(state).score_timer,
        final(state).bounds == old(state).bounds,
        final(state).next_entity == old(state).next_entity,
{
    let ghost bricks0 = old(state).bricks@;
    let nb = state.bricks.len();
    let mut j: usize = 0;
    while j < nb
        invariant
            j <= nb,
            nb == bricks0.len(),
            state.bricks@.len() == bricks0.len(),
            state.wf(),
            forall|k: int|
                0 <= k < j ==> #[trigger] state.bricks@[k] == fake_flip_end_step(bricks0[k]),
            forall|k: int| j <= k < nb ==> state.bricks@[k] == bricks0[k],
            state.players == old(state).players,
            state.ceiling == old(state).ceiling,
            state.scoreboard == old(state).scoreboard,
            state.score_timer == old(state).score_timer,
            state.bounds == old(state).bounds,
            state.next_entity == old(state).next_entity,
        decreases nb - j,
    {
        if let BrickKind::Fake { phase: FakePhase::Flipping { ticks_left } } =
            state.bricks[j].kind {
            let bm = &mut state.bricks[j];
            bm.kind = if ticks_left <= 1 {
                BrickKind::Fake { phase: FakePhase::Idle }
            } else {
                BrickKind::Fake { phase: FakePhase::Flipping { ticks_left: ticks_left - 1 } }
            };
        }
        j += 1;
    }
}

/// Counts each sprung spring brick's bounce down; on expiry it returns to
/// idle.
#[verifier::loop_isolation(false)]
pub fn animate_spring_brick_system(state: &mut GameState)
    requires
        old(state).wf(),
    ensures
        final(state).wf(),
        final(state).bricks@.len() == old(state).bricks@.len(),
        forall|i: int|
            0 <= i < old(state).bricks@.len() ==> #[trigger] final(state).bricks@[i]
                == spring_end_step(old(state).bricks@[i]),
        final(state).players == old(state).players,
        final(state).ceiling == old(state).ceiling,
        final(state).scoreboard == old(state).scoreboard,
        final(state).score_timer == old(state).score_timer,
        final(state).bounds == old(state).bounds,
        final(state).next_entity == old(state).next_entity,
{
    let ghost bricks0 = old(state).bricks@;
    let nb = state.bricks.len();
    let mut j: usize = 0;
    while j < nb
        invariant
            j <= nb,
            nb == bricks0.len(),
            state.bricks@.len() == bricks0.len(),
            state.wf(),
            forall|k: int|
                0 <= k < j ==> #[trigger] state.bricks@[k] == spring_end_step(bricks0[k]),
            forall|k: int| j <= k < nb ==> state.bricks@[k] == bricks0[k],
            state.players == old(state).players,
            state.ceiling == old(state).ceiling,
            state.scoreboard == old(state).scoreboard,
            state.score_timer == old(state).score_timer,
            state.bounds == old(state).bounds,
            state.next_entity == old(state).next_entity,
        decreases nb - j,
    {
        if let BrickKind::Spring { state: SpringState::Sprung { ticks_left } } =
            state.bricks[j].kind {
            let bm = &mut state.bricks[j];
            bm.kind = if ticks_left <= 1 {
                BrickKind::Spring { state: SpringState::Idle }
            } else {
                BrickKind::Spring { state: SpringState::Sprung { ticks_left: ticks_left - 1 } }
            };
        }
        j += 1;
    }
}

/// What the out-of-bounds fallback makes of one player: a living player
/// whose collider's far corner leaves the visible play area has its
/// health forced to zero.
pub open spec fn out_window_step(p: PlayerView, bounds: crate::geom::Vec2i) -> PlayerView {
    if p.dead || !(p.ceiling_hurt is Clear) {
        p
    } else {
        let x = p.px + p.collider.size.x as int / 2;
        let y = p.py + p.collider.size.y as int / 2;
        if x < -(bounds.x as int / 2) || x > bounds.x as int / 2 || y < -(bounds.y as int / 2) || y
            > bounds.y as int / 2 {
            PlayerView { health_value: health_clamp(p.health_max, 0), ..p }
        } else {
            p
        }
    }
}

/// Forces the health of each player that escapes the visible play area
/// to zero, as the fallback for entities that elude normal collision
/// bounds.
#[verifier::loop_isolation(false)]
pub fn player_out_window_die_system(state: &mut GameState)
    requires
        old(state).wf(),
        old(state).positions_within(POS_LIMIT as int),
    ensures
        final(state).wf(),
        final(state).players@.len() == old(state).players@.len(),
        forall|i: int|
            0 <= i < old(state).players@.len() ==> (#[trigger] final(state).players@[i])@
                == out_window_step(old(state).players@[i]@, old(state).bounds),
        final(state).bricks == old(state).bricks,
        final(state).ceiling == old(state).ceiling,
        final(state).scoreboard == old(state).scoreboard,
        final(state).score_timer == old(state).score_timer,
        final(state).bounds == old(state).bounds,
        final(state).next_entity == old(state).next_entity,
{
    let ghost players0 = old(state).players@;
    let width = state.bounds.x;
    let height = state.bounds.y;
    let np = state.players.len();
    let mut i: usize = 0;
    while i < np
        invariant
            i <= np,
            np == players0.len(),
            state.players@.len() == players0.len(),
            state.wf(),
            width == old(state).bounds.x,
            height == old(state).bounds.y,
            forall|k: int|
                0 <= k < i ==> (#[trigger] state.players@[k])@ == out_window_step(
                    players0[k]@,
                    old(state).bounds,
                ),
            forall|k: int| i <= k < np ==> state.players@[k] == players0[k],
            state.bricks == old(state).bricks,
            state.ceiling == old(state).ceiling,
            state.scoreboard == old(state).scoreboard,
            state.score_timer == old(state).score_timer,
            state.bounds == old(state).bounds,
            state.next_entity == old(state).next_entity,
        decreases np - i,
    {
        let checked = !state.players[i].dead && matches!(
            state.players[i].ceiling_hurt,
            CeilingHurtState::Clear,
        );
        if checked {
            proof {
                assert(old(state).players@[i as int].wf());
            }
            let x = state.players[i].pos.x + state.players[i].collider.size.x / 2;
            let y = state.players[i].pos.y + state.players[i].collider.size.y / 2;
            if x < -(width / 2) || x > width / 2 || y < -(height / 2) || y > height / 2 {
                let zero = state.players[i].health.clamp(0);
                let pm = &mut state.players[i];
                pm.health.value = zero;
            }
            proof {
                assert(state.players@[i as int]@ =~= out_window_step(
                    players0[i as int]@,
                    old(state).bounds,
                ));
            }
        }
        i += 1;
    }
}

/// What the death check makes of one player: health at or below zero on
/// a living player attaches the terminal dead state.
pub open spec fn dead_step(p: PlayerView) -> PlayerView {
    if !p.dead && p.health_value <= 0 {
        PlayerView { dead: true, ..p }
    } else {
        p
    }
}

/// The death notifications one pass emits, in player order: one per
/// player that dies on this pass, and none for a player already dead.
pub open spec fn dead_events(players: Seq<PlayerView>) -> Seq<PlayerEnterDeadEvent>
    decreases players.len(),
{
    if players.len() == 0 {
        Seq::empty()
    } else {
        let pre = dead_events(players.drop_last());
        let p = players.last();
        if !p.dead && p.health_value <= 0 {
            pre.push(PlayerEnterDeadEvent { handle: p.handle })
        } else {
            pre
        }
    }
}

/// Attaches the terminal dead state to each player whose health has
/// reached zero, emitting one death notification per transition; a
/// player already dead is left alone and nothing is re-emitted for it.
#[verifier::loop_isolation(false)]
pub fn enter_dead_system(state: &mut GameState, events: &mut TickEvents)
    requires
        old(state).wf(),
    ensures
        final(state).wf(),
        final(state).players@.len() == old(state).players@.len(),
        forall|i: int|
            0 <= i < old(state).players@.len() ==> (#[trigger] final(state).players@[i])@
                == dead_step(old(state).players@[i]@),
        final(state).bricks == old(state).bricks,
        final(state).ceiling == old(state).ceiling,
        final(state).scoreboard == old(state).scoreboard,
        final(state).score_timer == old(state).score_timer,
        final(state).bounds == old(state).bounds,
        final(state).next_entity == old(state).next_entity,
        final(events).player_enter_dead@ == old(events).player_enter_dead@ + dead_events(
            old(state).players@.map_values(|p: Player| p@),
        ),
        final(events).collisions == old(events).collisions,
        final(events).normal_triggers == old(events).normal_triggers,
        final(events).fake_triggers == old(events).fake_triggers,
        final(events).spring_triggers == old(events).spring_triggers,
        final(events).conveyor_triggers == old(events).conveyor_triggers,
{
    let ghost players0 = old(state).players@;
    let ghost pviews = players0.map_values(|p: Player| p@);
    proof {
        assert(events.player_enter_dead@ =~= old(events).player_enter_dead@ + dead_events(
            pviews.take(0),
        ));
    }
    let np = state.players.len();
    let mut i: usize = 0;
    while i < np
        invariant
            i <= np,
            np == players0.len(),
            state.players@.len() == players0.len(),
            pviews == players0.map_values(|p: Player| p@),
            state.wf(),
            forall|k: int|
                0 <= k < i ==> (#[trigger] state.players@[k])@ == dead_step(players0[k]@),
            forall|k: int| i <= k < np ==> state.players@[k] == players0[k],
            state.bricks == old(state).bricks,
            state.ceiling == old(state).ceiling,
            state.scoreboard == old(state).scoreboard,
            state.score_timer == old(state).score_timer,
            state.bounds == old(state).bounds,
            state.next_entity == old(state).next_entity,
            events.player_enter_dead@ == old(events).player_enter_dead@ + dead_events(
                pviews.take(i as int),
            ),
            events.collisions == old(events).collisions,
            events.normal_triggers == old(events).normal_triggers,
            events.fake_triggers == old(events).fake_triggers,
            events.spring_triggers == old(events).spring_triggers,
            events.conveyor_triggers == old(events).conveyor_triggers,
        decreases np - i,
    {
        proof {
            assert(pviews.take(i + 1).drop_last() =~= pviews.take(i as int));
        }
        if !state.players[i].dead && state.players[i].health.value <= 0 {
            let handle = state.players[i].handle;
            let pm = &mut state.players[i];
            pm.dead = true;
            events.player_enter_dead.push(PlayerEnterDeadEvent { handle });
            proof {
                assert(state.players@[i as int]@ =~= dead_step(players0[i as int]@));
                assert(events.player_enter_dead@ =~= old(events).player_enter_dead@ + dead_events(
                    pviews.take(i + 1),
                ));
            }
        } else {
            proof {
                assert(events.player_enter_dead@ =~= old(events).player_enter_dead@ + dead_events(
                    pviews.take(i + 1),
                ));
            }
        }
        i += 1;
    }
    proof {
        assert(pviews.take(np as int) =~= pviews);
    }
}

} // verus!
