//! Brick entities: the platforms, hazards and walls the player collides
//! with, each with its collider and its kind-specific state machine.

use vstd::prelude::*;
use crate::constants::{
    BRICK_DRIFT_SPEED, CELLING_HEIGHT, CELLING_WIDTH, CONVEYOR_BRICK_HEIGHT, CONVEYOR_BRICK_WIDTH,
    FAKE_BRICK_HEIGHT, FAKE_BRICK_WIDTH, NAILS_BRICK_HEIGHT, NAILS_BRICK_OFFSET, NAILS_BRICK_WIDTH,
    NORMAL_BRICK_HEIGHT, NORMAL_BRICK_WIDTH, POS_LIMIT, SIZE_LIMIT, SPRING_BRICK_HEIGHT,
    SPRING_BRICK_WIDTH, TICK_DRIFT_LIMIT, TICK_POS_LIMIT, WALL_HEIGHT, WALL_WIDTH,
};
use crate::geom::{BoxCollider, Vec2i};

verus! {

/// The direction in which a conveyor brick pushes a standing player.
#[derive(Clone, Copy, Debug, PartialEq, Eq, Structural)]
pub enum ConveyorDirection {
    Left,
    Right,
}

/// Lifecycle of a fake (collapsing) brick: idle until stepped on, then a
/// fixed delay, then a flip during which its collider is withdrawn, then
/// idle again.
#[derive(Clone, Copy, Debug, PartialEq, Eq, Structural)]
pub enum FakePhase {
    Idle,
    PendingFlip { ticks_left: u32 },
    Flipping { ticks_left: u32 },
}

/// A spring brick is idle or bouncing through its sprung animation.
#[derive(Clone, Copy, Debug, PartialEq, Eq, Structural)]
pub enum SpringState {
    Idle,
    Sprung { ticks_left: u32 },
}

/// The secondary, non-solid spike box of a nails brick, sitting above its
/// solid collider.
#[derive(Clone, Copy, Debug, PartialEq, Eq, Structural)]
pub struct NailsBrickHitbox(pub BoxCollider);

/// Where a drifting wall segment teleports back to once it has risen to
/// its target height.
#[derive(Clone, Copy, Debug, PartialEq, Eq, Structural)]
pub struct WallPositionReset {
    pub restore_position: Vec2i,
    pub target_y: i64,
}

/// Kind-specific state of a brick entity.
#[derive(Clone, Copy, Debug, PartialEq, Eq, Structural)]
pub enum BrickKind {
    Normal,
    Fake { phase: FakePhase },
    Nails { hitbox: NailsBrickHitbox },
    Spring { state: SpringState },
    Conveyor { direction: ConveyorDirection },
    Wall { reset: Option<WallPositionReset> },
}

/// One brick entity: identifier, position, per-tick drift, solid collider
/// and kind-specific state.
#[derive(Clone, Copy, Debug, PartialEq, Eq, Structural)]
pub struct Brick {
    pub id: u64,
    pub pos: Vec2i,
    pub velocity: Vec2i,
    pub collider: BoxCollider,
    pub kind: BrickKind,
}

/// A coordinate within the simulation's position bound.
pub open spec fn coord_ok(v: int) -> bool {
    -(POS_LIMIT as int) <= v <= POS_LIMIT as int
}

/// A fixed anchor coordinate (a wall's restore position, the window
/// bounds): one tick's drift below the start-of-tick bound, so that a
/// tick starting with that much headroom ends within the bound even when
/// a wall has just teleported back and a player has snapped onto it.
pub open spec fn anchor_ok(v: int) -> bool {
    -(TICK_POS_LIMIT as int - TICK_DRIFT_LIMIT as int) <= v <= TICK_POS_LIMIT as int
        - TICK_DRIFT_LIMIT as int
}

/// A speed or collider offset within the simulation's small-magnitude
/// bound.
pub open spec fn small_ok(v: int) -> bool {
    -(SIZE_LIMIT as int) <= v <= SIZE_LIMIT as int
}

pub open spec fn pos_ok(v: Vec2i) -> bool {
    coord_ok(v.x as int) && coord_ok(v.y as int)
}

pub open spec fn vel_ok(v: Vec2i) -> bool {
    small_ok(v.x as int) && small_ok(v.y as int)
}

/// A well-formed collider has even, bounded, non-negative extents and a
/// bounded center offset.
pub open spec fn collider_ok(c: BoxCollider) -> bool {
    crate::geom::extent_ok(c.size.x as int) && crate::geom::extent_ok(c.size.y as int) && small_ok(
        c.center.x as int,
    ) && small_ok(c.center.y as int)
}


impl Brick {
    pub open spec fn new_normal_spec(id: u64, pos: Vec2i) -> Brick {
        Brick {
            id,
            pos,
            velocity: Vec2i { x: 0, y: BRICK_DRIFT_SPEED as i64 },
            collider: BoxCollider {
                size: Vec2i { x: NORMAL_BRICK_WIDTH, y: NORMAL_BRICK_HEIGHT },
                center: Vec2i { x: 0, y: 0 },
            },
            kind: BrickKind::Normal,
        }
    }

    pub open spec fn new_fake_spec(id: u64, pos: Vec2i) -> Brick {
        Brick {
            id,
            pos,
            velocity: Vec2i { x: 0, y: BRICK_DRIFT_SPEED as i64 },
            collider: new_fake_brick_box_collider_spec(),
            kind: BrickKind::Fake { phase: FakePhase::Idle },
        }
    }

    pub open spec fn new_nails_spec(id: u64, pos: Vec2i) -> Brick {
        Brick {
            id,
            pos,
            velocity: Vec2i { x: 0, y: BRICK_DRIFT_SPEED as i64 },
            collider: BoxCollider {
                size: Vec2i { x: NAILS_BRICK_WIDTH, y: NAILS_BRICK_HEIGHT },
                center: Vec2i { x: 0, y: (-NAILS_BRICK_OFFSET) as i64 },
            },
            kind: BrickKind::Nails {
                hitbox: NailsBrickHitbox(
                    BoxCollider {
                        size: Vec2i { x: NAILS_BRICK_WIDTH, y: NAILS_BRICK_HEIGHT },
                        center: Vec2i { x: 0, y: NAILS_BRICK_OFFSET },
                    },
                ),
            },
        }
    }

    pub open spec fn new_spring_spec(id: u64, pos: Vec2i) -> Brick {
        Brick {
            id,
            pos,
            velocity: Vec2i { x: 0, y: BRICK_DRIFT_SPEED as i64 },
            collider: BoxCollider {
                size: Vec2i { x: SPRING_BRICK_WIDTH, y: SPRING_BRICK_HEIGHT },
                center: Vec2i { x: 0, y: 0 },
            },
            kind: BrickKind::Spring { state: SpringState::Idle },
        }
    }

    pub open spec fn new_conveyor_spec(id: u64, direction: ConveyorDirection, pos: Vec2i) -> Brick {
        Brick {
            id,
            pos,
            velocity: Vec2i { x: 0, y: BRICK_DRIFT_SPEED as i64 },
            collider: BoxCollider {
                size: Vec2i { x: CONVEYOR_BRICK_WIDTH, y: CONVEYOR_BRICK_HEIGHT },
                center: Vec2i { x: 0, y: 0 },
            },
            kind: BrickKind::Conveyor { direction },
        }
    }

    pub open spec fn new_wall_spec(id: u64, pos: Vec2i, reset: Option<WallPositionReset>) -> Brick {
        Brick {
            id,
            pos,
            velocity: Vec2i {
                x: 0,
                y: if reset is Some {
                    BRICK_DRIFT_SPEED as i64
                } else {
                    0
                },
            },
            collider: BoxCollider {
                size: Vec2i { x: WALL_WIDTH, y: WALL_HEIGHT },
                center: Vec2i { x: 0, y: 0 },
            },
            kind: BrickKind::Wall { reset },
        }
    }
}

impl Brick {

    /// Bounds that every phase of the tick pipeline preserves.  The
    /// brick's own position is bounded separately, by
    /// `GameState::positions_within`, since drift moves it.
    pub open spec fn wf(self) -> bool {
        &&& vel_ok(self.velocity)
        &&& collider_ok(self.collider)
        &&& match self.kind {
            BrickKind::Nails { hitbox } => collider_ok(hitbox.0),
            BrickKind::Wall { reset } => match reset {
                Some(r) => anchor_ok(r.restore_position.x as int) && anchor_ok(
                    r.restore_position.y as int,
                ) && coord_ok(r.target_y as int),
                None => true,
            },
            _ => true,
        }
    }

    /// Whether the brick's solid collider currently takes part in the
    /// collision scan: withdrawn only while a fake brick is flipping.
    pub open spec fn collider_active(self) -> bool {
        !(self.kind matches BrickKind::Fake { phase: FakePhase::Flipping { .. } })
    }

    /// A normal brick drifting upward.
    pub fn new_normal(id: u64, pos: Vec2i) -> (r: Brick)
        ensures
            r == Brick::new_normal_spec(id, pos),
    {
        Brick {
            id,
            pos,
            velocity: Vec2i { x: 0, y: BRICK_DRIFT_SPEED },
            collider: BoxCollider {
                size: Vec2i { x: NORMAL_BRICK_WIDTH, y: NORMAL_BRICK_HEIGHT },
                center: Vec2i { x: 0, y: 0 },
            },
            kind: BrickKind::Normal,
        }
    }

    /// A fake (collapsing) brick, idle.
    pub fn new_fake(id: u64, pos: Vec2i) -> (r: Brick)
        ensures
            r == Brick::new_fake_spec(id, pos),
    {
        Brick {
            id,
            pos,
            velocity: Vec2i { x: 0, y: BRICK_DRIFT_SPEED },
            collider: new_fake_brick_box_collider(),
            kind: BrickKind::Fake { phase: FakePhase::Idle },
        }
    }

    /// A nails brick: solid collider below its position, spike hitbox
    /// above it.
    pub fn new_nails(id: u64, pos: Vec2i) -> (r: Brick)
        ensures
            r == Brick::new_nails_spec(id, pos),
    {
        Brick {
            id,
            pos,
            velocity: Vec2i { x: 0, y: BRICK_DRIFT_SPEED },
            collider: BoxCollider {
                size: Vec2i { x: NAILS_BRICK_WIDTH, y: NAILS_BRICK_HEIGHT },
                center: Vec2i { x: 0, y: -NAILS_BRICK_OFFSET },
            },
            kind: BrickKind::Nails {
                hitbox: NailsBrickHitbox(
                    BoxCollider {
                        size: Vec2i { x: NAILS_BRICK_WIDTH, y: NAILS_BRICK_HEIGHT },
                        center: Vec2i { x: 0, y: NAILS_BRICK_OFFSET },
                    },
                ),
            },
        }
    }

    /// A spring brick, idle.
    pub fn new_spring(id: u64, pos: Vec2i) -> (r: Brick)
        ensures
            r == Brick::new_spring_spec(id, pos),
    {
        Brick {
            id,
            pos,
            velocity: Vec2i { x: 0, y: BRICK_DRIFT_SPEED },
            collider: BoxCollider {
                size: Vec2i { x: SPRING_BRICK_WIDTH, y: SPRING_BRICK_HEIGHT },
                center: Vec2i { x: 0, y: 0 },
            },
            kind: BrickKind::Spring { state: SpringState::Idle },
        }
    }

    /// A conveyor brick pushing in the given direction.
    pub fn new_conveyor(id: u64, direction: ConveyorDirection, pos: Vec2i) -> (r: Brick)
        ensures
            r == Brick::new_conveyor_spec(id, direction, pos),
    {
        Brick {
            id,
            pos,
            velocity: Vec2i { x: 0, y: BRICK_DRIFT_SPEED },
            collider: BoxCollider {
                size: Vec2i { x: CONVEYOR_BRICK_WIDTH, y: CONVEYOR_BRICK_HEIGHT },
                center: Vec2i { x: 0, y: 0 },
            },
            kind: BrickKind::Conveyor { direction },
        }
    }

    /// A wall segment, optionally drifting upward with a teleport-back
    /// reset.
    pub fn new_wall(id: u64, pos: Vec2i, reset: Option<WallPositionReset>) -> (r: Brick)
        ensures
            r == Brick::new_wall_spec(id, pos, reset),
    {
        let vy: i64 = if reset.is_some() {
            BRICK_DRIFT_SPEED
        } else {
            0
        };
        Brick {
            id,
            pos,
            velocity: Vec2i { x: 0, y: vy },
            collider: BoxCollider {
                size: Vec2i { x: WALL_WIDTH, y: WALL_HEIGHT },
                center: Vec2i { x: 0, y: 0 },
            },
            kind: BrickKind::Wall { reset },
        }
    }
}

pub open spec fn new_fake_brick_box_collider_spec() -> BoxCollider {
    BoxCollider {
        size: Vec2i { x: FAKE_BRICK_WIDTH, y: FAKE_BRICK_HEIGHT },
        center: Vec2i { x: 0, y: 0 },
    }
}

/// The solid collider a fake brick carries whenever it is not flipping.
pub fn new_fake_brick_box_collider() -> (r: BoxCollider)
    ensures
        r == new_fake_brick_box_collider_spec(),
{
    BoxCollider {
        size: Vec2i { x: FAKE_BRICK_WIDTH, y: FAKE_BRICK_HEIGHT },
        center: Vec2i { x: 0, y: 0 },
    }
}

/// The ceiling hazard's box, which damages on any contact.
#[derive(Clone, Copy, Debug, PartialEq, Eq, Structural)]
pub struct CeilingHitbox(pub BoxCollider);

/// The fixed ceiling hazard strip across the top of the play area.
#[derive(Clone, Copy, Debug, PartialEq, Eq, Structural)]
pub struct Ceiling {
    pub pos: Vec2i,
    pub hitbox: CeilingHitbox,
}

impl Ceiling {
    pub open spec fn wf(self) -> bool {
        pos_ok(self.pos) && collider_ok(self.hitbox.0)
    }

    /// A ceiling strip at the given position with the canonical extent.
    pub fn new(pos: Vec2i) -> (r: Ceiling)
        ensures
            r == (Ceiling {
                pos,
                hitbox: CeilingHitbox(
                    BoxCollider {
                        size: Vec2i { x: CELLING_WIDTH, y: CELLING_HEIGHT },
                        center: Vec2i { x: 0, y: 0 },
                    },
                ),
            }),
    {
        Ceiling {
            pos,
            hitbox: CeilingHitbox(
                BoxCollider {
                    size: Vec2i { x: CELLING_WIDTH, y: CELLING_HEIGHT },
                    center: Vec2i { x: 0, y: 0 },
                },
            ),
        }
    }
}

} // verus!
