//! The player entity: position, velocity, collider, health, steering
//! input and the status state machines driven by the tick pipeline.

use vstd::prelude::*;
use crate::animation::PlayerAnimation;
use crate::brick::{collider_ok, vel_ok, ConveyorDirection};
use crate::constants::{FALL_SPEED, PLAYER_SIZE};
use crate::geom::{BoxCollider, Side, Vec2i};
use crate::health::Health;

verus! {

/// The normalized steering vector consumed from the input layer: the x
/// component is -1, 0 or 1.
#[derive(Clone, Copy, Debug, PartialEq, Eq, Structural)]
pub struct Userinput {
    pub move_accelection: Vec2i,
}

impl Userinput {
    pub open spec fn wf(self) -> bool {
        (-1 <= self.move_accelection.x <= 1) && self.move_accelection.y == 0
    }
}

/// Grounded or flying, derived every tick from the vertical velocity.
#[derive(Clone, Copy, Debug, PartialEq, Eq, Structural)]
pub enum MovementState {
    Grounded,
    Flying,
}

/// Damage cooldown: while `Damaging`, further spike and ceiling hits cost
/// no health.
#[derive(Clone, Copy, Debug, PartialEq, Eq, Structural)]
pub enum DamageState {
    Clear,
    Damaging { ticks_left: u32 },
}

/// Jump window granted by a spring brick: while `Jumping`, the player
/// rises and skips the collision scan.
#[derive(Clone, Copy, Debug, PartialEq, Eq, Structural)]
pub enum JumpState {
    Clear,
    Jumping { ticks_left: u32 },
}

/// Knockback window after a ceiling hit: while `Hurting`, the player's
/// collider is withdrawn.
#[derive(Clone, Copy, Debug, PartialEq, Eq, Structural)]
pub enum CeilingHurtState {
    Clear,
    Hurting { ticks_left: u32 },
}

/// The entities found overlapping the player in the previous tick's
/// collision scan, with the side each classified to.  Rebuilt in full
/// every tick; entry `i` of `collisions` belongs to entry `i` of
/// `entities`.
#[derive(Clone, Debug)]
pub struct LastCollisions {
    pub entities: Vec<u64>,
    pub collisions: Vec<Side>,
}

/// A player's mirror of the shared score counter, taken at increment
/// time.
#[derive(Clone, Copy, Debug, PartialEq, Eq, Structural)]
pub struct PlayerScore {
    pub score: u64,
}

/// One player entity and all of its per-tick simulation state.
#[derive(Clone, Debug)]
pub struct Player {
    pub id: u64,
    pub handle: u32,
    pub pos: Vec2i,
    pub velocity: Vec2i,
    pub collider: BoxCollider,
    pub health: Health,
    pub userinput: Userinput,
    pub movement: MovementState,
    pub damage: DamageState,
    pub jump: JumpState,
    pub ceiling_hurt: CeilingHurtState,
    pub dead: bool,
    pub conveyor_moved: Option<ConveyorDirection>,
    pub last_collisions: LastCollisions,
    pub score: PlayerScore,
    pub animation: PlayerAnimation,
}

/// The mathematical image of a `Player`: coordinates as unbounded
/// integers, the collision history as sequences.  Tick-phase
/// specifications are stated over this view.
#[verifier::ext_equal]
pub ghost struct PlayerView {
    pub id: u64,
    pub handle: u32,
    pub px: int,
    pub py: int,
    pub vx: int,
    pub vy: int,
    pub collider: BoxCollider,
    pub health_value: int,
    pub health_max: int,
    pub userinput: Userinput,
    pub movement: MovementState,
    pub damage: DamageState,
    pub jump: JumpState,
    pub ceiling_hurt: CeilingHurtState,
    pub dead: bool,
    pub conveyor_moved: Option<ConveyorDirection>,
    pub lc_ids: Seq<u64>,
    pub lc_sides: Seq<Side>,
    pub score: u64,
    pub animation: PlayerAnimation,
}

impl View for Player {
    type V = PlayerView;

    open spec fn view(&self) -> PlayerView {
        PlayerView {
            id: self.id,
            handle: self.handle,
            px: self.pos.x as int,
            py: self.pos.y as int,
            vx: self.velocity.x as int,
            vy: self.velocity.y as int,
            collider: self.collider,
            health_value: self.health.value as int,
            health_max: self.health.max as int,
            userinput: self.userinput,
            movement: self.movement,
            damage: self.damage,
            jump: self.jump,
            ceiling_hurt: self.ceiling_hurt,
            dead: self.dead,
            conveyor_moved: self.conveyor_moved,
            lc_ids: self.last_collisions.entities@,
            lc_sides: self.last_collisions.collisions@,
            score: self.score.score,
            animation: self.animation,
        }
    }
}

impl BoxCollider {
    pub open spec fn new_player_collider_spec() -> BoxCollider {
        BoxCollider {
            size: Vec2i { x: PLAYER_SIZE, y: PLAYER_SIZE },
            center: Vec2i { x: 0, y: 0 },
        }
    }

    /// The canonical square player collider, centered on the player.
    pub fn new_player_collider() -> (r: BoxCollider)
        ensures
            r == BoxCollider::new_player_collider_spec(),
    {
        BoxCollider {
            size: Vec2i { x: PLAYER_SIZE, y: PLAYER_SIZE },
            center: Vec2i { x: 0, y: 0 },
        }
    }
}

impl Player {
    /// Bounds that every phase of the tick pipeline preserves.  The
    /// player's position is bounded separately, by
    /// `GameState::positions_within`, since movement changes it.
    pub open spec fn wf(self) -> bool {
        &&& vel_ok(self.velocity)
        &&& collider_ok(self.collider)
        &&& self.health.wf()
        &&& self.userinput.wf()
        &&& self.last_collisions.entities@.len() == self.last_collisions.collisions@.len()
    }

    /// Whether the player's collider currently takes part in overlap
    /// checks: withdrawn only during the ceiling knockback window.
    pub open spec fn collider_active(self) -> bool {
        self.ceiling_hurt is Clear
    }

    /// Everything `new` promises of a freshly spawned player except its
    /// empty collision history, which spec code cannot hold as a `Vec`.
    pub open spec fn fresh_spec(self, id: u64, handle: u32, pos: Vec2i) -> bool {
        &&& self.id == id
        &&& self.handle == handle
        &&& self.pos == pos
        &&& self.velocity == (Vec2i { x: 0, y: (-FALL_SPEED) as i64 })
        &&& self.collider == BoxCollider::new_player_collider_spec()
        &&& self.health == (Health {
            value: crate::constants::PLAYER_MAX_HEALTH,
            max: crate::constants::PLAYER_MAX_HEALTH,
        })
        &&& self.userinput == (Userinput { move_accelection: Vec2i { x: 0, y: 0 } })
        &&& self.movement == MovementState::Flying
        &&& self.damage == DamageState::Clear
        &&& self.jump == JumpState::Clear
        &&& self.ceiling_hurt == CeilingHurtState::Clear
        &&& !self.dead
        &&& self.conveyor_moved is None
        &&& self.last_collisions.entities@ == Seq::<u64>::empty()
        &&& self.last_collisions.collisions@ == Seq::<Side>::empty()
        &&& self.score == (PlayerScore { score: 0 })
        &&& self.animation == PlayerAnimation::Idle
    }

    /// A freshly spawned player: full health, falling, no status, an
    /// empty collision history.
    pub fn new(id: u64, handle: u32, pos: Vec2i) -> (r: Player)
        ensures
            r.fresh_spec(id, handle, pos),
            r.wf(),
    {
        Player {
            id,
            handle,
            pos,
            velocity: Vec2i { x: 0, y: -FALL_SPEED },
            collider: BoxCollider::new_player_collider(),
            health: Health::new_player_health(),
            userinput: Userinput { move_accelection: Vec2i { x: 0, y: 0 } },
            movement: MovementState::Flying,
            damage: DamageState::Clear,
            jump: JumpState::Clear,
            ceiling_hurt: CeilingHurtState::Clear,
            dead: false,
            conveyor_moved: None,
            last_collisions: LastCollisions { entities: Vec::new(), collisions: Vec::new() },
            score: PlayerScore { score: 0 },
            animation: PlayerAnimation::Idle,
        }
    }
}

} // verus!
