//! Procedural level population: deterministic seeded sampling of brick
//! positions, kinds and conveyor directions, and the spawn routines that
//! stock a fresh round — bricks, walls, ceiling and players.
//!
//! Three independently seeded draw streams feed the generator: one for
//! the horizontal offset, one for the brick kind, one for conveyor
//! directions.  The same seed set always yields the same layout, which
//! replay and networked play rely on.

use vstd::prelude::*;
use crate::brick::{Brick, BrickKind, Ceiling, ConveyorDirection, WallPositionReset};
use crate::constants::{
    BRICK_DRIFT_SPEED, CELLING_HEIGHT, IN_GAME_UI_APP_BAR_HEIGHT, NAILS_BRICK_OFFSET, WALL_HEIGHT,
    WALL_WIDTH,
};
use crate::geom::Vec2i;
use crate::player::Player;
use crate::rng::{
    draw_bool, draw_i32_exclusive, draw_u32_inclusive, wyrand_bool, wyrand_i32_exclusive,
    wyrand_u32_inclusive,
};
use crate::state::GameState;

verus! {

/// The kinds of brick the generator can place.
#[derive(Clone, Copy, Debug, PartialEq, Eq, Structural)]
pub enum BrickType {
    Normal,
    Fake,
    Nails,
    Conveyor,
    Spring,
}

/// The fixed mapping from a draw in `[1, 100]` to a brick kind: normal
/// on `[1, 50]`, fake on `[51, 60]`, nails on `[61, 80]`, conveyor on
/// `[81, 90]` and spring on `[91, 100]`.
pub open spec fn brick_type_of(n: u32) -> BrickType {
    if n <= 50 {
        BrickType::Normal
    } else if n <= 60 {
        BrickType::Fake
    } else if n <= 80 {
        BrickType::Nails
    } else if n <= 90 {
        BrickType::Conveyor
    } else {
        BrickType::Spring
    }
}

/// The inclusive sub-ranges of the kind draw, one per brick kind.
#[derive(Clone, Copy, Debug)]
pub struct BrickProbability {
    pub all: (u32, u32),
    pub normal: (u32, u32),
    pub fake: (u32, u32),
    pub nails: (u32, u32),
    pub conveyor: (u32, u32),
    pub spring: (u32, u32),
}

impl BrickProbability {
    /// The canonical kind distribution: 50% normal, 10% fake, 20%
    /// nails, 10% conveyor, 10% spring.
    pub open spec fn canonical() -> BrickProbability {
        BrickProbability {
            all: (1u32, 100u32),
            normal: (1u32, 50u32),
            fake: (51u32, 60u32),
            nails: (61u32, 80u32),
            conveyor: (81u32, 90u32),
            spring: (91u32, 100u32),
        }
    }

    pub fn new() -> (r: BrickProbability)
        ensures
            r == BrickProbability::canonical(),
    {
        BrickProbability {
            all: (1, 100),
            normal: (1, 50),
            fake: (51, 60),
            nails: (61, 80),
            conveyor: (81, 90),
            spring: (91, 100),
        }
    }

    /// Draws one kind: the draw stream advances once and the value maps
    /// through the fixed sub-ranges.
    pub fn sample(&self, state: u64) -> (r: (u64, BrickType))
        requires
            *self == BrickProbability::canonical(),
        ensures
            ({
                let d = wyrand_u32_inclusive(state, 1, 100);
                r.0 == d.0 && r.1 == brick_type_of(d.1)
            }),
    {
        let d = draw_u32_inclusive(state, self.all.0, self.all.1);
        let n = d.1;
        let kind = if n >= self.normal.0 && n <= self.normal.1 {
            BrickType::Normal
        } else if n >= self.fake.0 && n <= self.fake.1 {
            BrickType::Fake
        } else if n >= self.nails.0 && n <= self.nails.1 {
            BrickType::Nails
        } else if n >= self.conveyor.0 && n <= self.conveyor.1 {
            BrickType::Conveyor
        } else {
            BrickType::Spring
        };
        (d.0, kind)
    }
}

/// The generator's horizontal draw range and vertical start for a
/// window of the given width and height in units: offsets stay 50 units
/// off each edge, rows start at the window's top half.
pub open spec fn gen_min_x(width: i32) -> i32 {
    (50 - width / 2) as i32
}

pub open spec fn gen_max_x(width: i32) -> i32 {
    (width / 2 - 50) as i32
}

pub open spec fn gen_max_y(height: i32) -> i32 {
    (height / 2) as i32
}

/// One generated brick: its position in window units, its kind, and the
/// drawn direction when the kind is a conveyor.
#[derive(Clone, Copy, Debug, PartialEq, Eq, Structural)]
pub struct BrickPlacement {
    pub x: i32,
    pub y: i32,
    pub kind: BrickType,
    pub direction: Option<ConveyorDirection>,
}

/// The placements the generator emits from row `i` on: each row draws
/// its horizontal offset, then its kind, and — for a conveyor only — a
/// direction, each from its own stream; rows stack downward with a
/// fixed vertical step.
pub open spec fn gen_from(
    ps: u64,
    ks: u64,
    ds: u64,
    min_x: i32,
    max_x: i32,
    max_y: i32,
    i: u32,
    count: u32,
) -> Seq<BrickPlacement>
    decreases count - i,
{
    if i >= count {
        Seq::empty()
    } else {
        let dp = wyrand_i32_exclusive(ps, min_x, max_x);
        let dk = wyrand_u32_inclusive(ks, 1, 100);
        let kind = brick_type_of(dk.1);
        let y = (max_y - i * 55) as i32;
        if kind is Conveyor {
            let db = wyrand_bool(ds);
            let dir = if db.1 {
                ConveyorDirection::Left
            } else {
                ConveyorDirection::Right
            };
            seq![
                BrickPlacement { x: dp.1, y, kind, direction: Some(dir) },
            ] + gen_from(dp.0, dk.0, db.0, min_x, max_x, max_y, (i + 1) as u32, count)
        } else {
            seq![
                BrickPlacement { x: dp.1, y, kind, direction: None },
            ] + gen_from(dp.0, dk.0, ds, min_x, max_x, max_y, (i + 1) as u32, count)
        }
    }
}

/// Generates `count` brick placements from the three stream seeds, for
/// a window of the given width and height in units: horizontal offsets
/// stay 50 units off each edge, rows start at the window's top half and
/// step 55 units down.  The result is a function of the arguments
/// alone.
#[verifier::loop_isolation(false)]
pub fn generate_level(
    pos_seed: u64,
    brick_type_seed: u64,
    conveyor_dir_seed: u64,
    width: i32,
    height: i32,
    count: u32,
) -> (r: Vec<BrickPlacement>)
    requires
        102 <= width <= 100000,
        0 <= height <= 100000,
        count <= 100000,
    ensures
        r@ == gen_from(
            pos_seed,
            brick_type_seed,
            conveyor_dir_seed,
            gen_min_x(width),
            gen_max_x(width),
            gen_max_y(height),
            0,
            count,
        ),
        r@.len() == count,
        forall|p: int|
            0 <= p < r@.len() ==> gen_min_x(width) <= (#[trigger] r@[p]).x < gen_max_x(width)
                && -6000000 <= r@[p].y <= 100000,
{
    let min_x = -(width / 2) + 50;
    let max_x = width / 2 - 50;
    let max_y = height / 2;
    proof {
        assert(min_x == gen_min_x(width));
        assert(max_x == gen_max_x(width));
        assert(max_y == gen_max_y(height));
    }
    let brick_prob = BrickProbability::new();
    let mut out: Vec<BrickPlacement> = Vec::new();
    let mut ps = pos_seed;
    let mut ks = brick_type_seed;
    let mut ds = conveyor_dir_seed;
    let mut i: u32 = 0;
    proof {
        assert(out@ + gen_from(ps, ks, ds, min_x, max_x, max_y, 0, count) =~= gen_from(
            pos_seed,
            brick_type_seed,
            conveyor_dir_seed,
            min_x,
            max_x,
            max_y,
            0,
            count,
        ));
    }
    while i < count
        invariant
            i <= count,
            min_x == gen_min_x(width),
            max_x == gen_max_x(width),
            max_y == gen_max_y(height),
            min_x < max_x,
            brick_prob == BrickProbability::canonical(),
            out@.len() == i,
            forall|p: int|
                0 <= p < out@.len() ==> gen_min_x(width) <= (#[trigger] out@[p]).x < gen_max_x(
                    width,
                ) && -6000000 <= out@[p].y <= 100000,
            gen_from(pos_seed, brick_type_seed, conveyor_dir_seed, min_x, max_x, max_y, 0, count)
                == out@ + gen_from(ps, ks, ds, min_x, max_x, max_y, i, count),
        decreases count - i,
    {
        let ghost ps0 = ps;
        let ghost ks0 = ks;
        let ghost ds0 = ds;
        let ghost out0 = out@;
        let dp = draw_i32_exclusive(ps, min_x, max_x);
        ps = dp.0;
        let x = dp.1;
        let dk = brick_prob.sample(ks);
        ks = dk.0;
        let btype = dk.1;
        let y = max_y - (i as i32) * 55;
        let direction: Option<ConveyorDirection> = if matches!(btype, BrickType::Conveyor) {
            let db = draw_bool(ds);
            ds = db.0;
            if db.1 {
                Some(ConveyorDirection::Left)
            } else {
                Some(ConveyorDirection::Right)
            }
        } else {
            None
        };
        out.push(BrickPlacement { x, y, kind: btype, direction });
        proof {
            let step = gen_from(ps0, ks0, ds0, min_x, max_x, max_y, i, count);
            let rest = gen_from(ps, ks, ds, min_x, max_x, max_y, (i + 1) as u32, count);
            assert(step =~= seq![out@.last()] + rest);
            assert(out@ + rest =~= out0 + step);
        }
        i += 1;
    }
    out
}

/// The brick entity a placement materializes to, in half-units: the
/// generated position doubles, and a nails brick sits a further offset
/// up so that its spike hitbox tops the row.
pub open spec fn brick_of_placement(p: BrickPlacement, id: u64) -> Brick {
    let pos = Vec2i { x: (2 * p.x) as i64, y: (2 * p.y) as i64 };
    match p.kind {
        BrickType::Normal => Brick {
            id,
            pos,
            velocity: Vec2i { x: 0, y: BRICK_DRIFT_SPEED as i64 },
            collider: crate::geom::BoxCollider {
                size: Vec2i {
                    x: crate::constants::NORMAL_BRICK_WIDTH,
                    y: crate::constants::NORMAL_BRICK_HEIGHT,
                },
                center: Vec2i { x: 0, y: 0 },
            },
            kind: BrickKind::Normal,
        },
        BrickType::Fake => Brick {
            id,
            pos,
            velocity: Vec2i { x: 0, y: BRICK_DRIFT_SPEED as i64 },
            collider: crate::brick::new_fake_brick_box_collider_spec(),
            kind: BrickKind::Fake { phase: crate::brick::FakePhase::Idle },
        },
        BrickType::Nails => Brick {
            id,
            pos: Vec2i { x: pos.x, y: (pos.y + NAILS_BRICK_OFFSET) as i64 },
            velocity: Vec2i { x: 0, y: BRICK_DRIFT_SPEED as i64 },
            collider: crate::geom::BoxCollider {
                size: Vec2i {
                    x: crate::constants::NAILS_BRICK_WIDTH,
                    y: crate::constants::NAILS_BRICK_HEIGHT,
                },
                center: Vec2i { x: 0, y: (-NAILS_BRICK_OFFSET) as i64 },
            },
            kind: BrickKind::Nails {
                hitbox: crate::brick::NailsBrickHitbox(
                    crate::geom::BoxCollider {
                        size: Vec2i {
                            x: crate::constants::NAILS_BRICK_WIDTH,
                            y: crate::constants::NAILS_BRICK_HEIGHT,
                        },
                        center: Vec2i { x: 0, y: NAILS_BRICK_OFFSET },
                    },
                ),
            },
        },
        BrickType::Conveyor => Brick {
            id,
            pos,
            velocity: Vec2i { x: 0, y: BRICK_DRIFT_SPEED as i64 },
            collider: crate::geom::BoxCollider {
                size: Vec2i {
                    x: crate::constants::CONVEYOR_BRICK_WIDTH,
                    y: crate::constants::CONVEYOR_BRICK_HEIGHT,
                },
                center: Vec2i { x: 0, y: 0 },
            },
            kind: BrickKind::Conveyor {
                direction: match p.direction {
                    Some(d) => d,
                    None => ConveyorDirection::Right,
                },
            },
        },
        BrickType::Spring => Brick {
            id,
            pos,
            velocity: Vec2i { x: 0, y: BRICK_DRIFT_SPEED as i64 },
            collider: crate::geom::BoxCollider {
                size: Vec2i {
                    x: crate::constants::SPRING_BRICK_WIDTH,
                    y: crate::constants::SPRING_BRICK_HEIGHT,
                },
                center: Vec2i { x: 0, y: 0 },
            },
            kind: BrickKind::Spring { state: crate::brick::SpringState::Idle },
        },
    }
}

/// The brick entities of a placement list, with identifiers assigned in
/// order from `base`.
pub open spec fn materialize_bricks(ps: Seq<BrickPlacement>, base: u64) -> Seq<Brick>
    decreases ps.len(),
{
    if ps.len() == 0 {
        Seq::empty()
    } else {
        materialize_bricks(ps.drop_last(), base) + seq![
            brick_of_placement(ps.last(), (base + ps.len() - 1) as u64),
        ]
    }
}

/// Populates the state with the canonical generated level: 500 rows
/// drawn from the fixed seed set, materialized as brick entities with
/// fresh identifiers.
#[verifier::loop_isolation(false)]
pub fn spawn_bricks_2(state: &mut GameState, width: i32, height: i32)
    requires
        old(state).wf(),
        102 <= width <= 100000,
        0 <= height <= 100000,
        old(state).next_entity <= u64::MAX - 500,
    ensures
        final(state).wf(),
        final(state).bricks@ == old(state).bricks@ + materialize_bricks(
            gen_from(5, 3, 4, gen_min_x(width), gen_max_x(width), gen_max_y(height), 0, 500),
            old(state).next_entity,
        ),
        final(state).next_entity == old(state).next_entity + 500,
        final(state).players == old(state).players,
        final(state).ceiling == old(state).ceiling,
        final(state).scoreboard == old(state).scoreboard,
        final(state).score_timer == old(state).score_timer,
        final(state).bounds == old(state).bounds,
        forall|t: int|
            old(state).bricks@.len() <= t < final(state).bricks@.len()
                ==> crate::geom::v2_within((#[trigger] final(state).bricks@[t]).pos, 0x1000000),
{
    let placements = generate_level(5, 3, 4, width, height, 500);
    let ghost base = state.next_entity;
    let ghost bricks_old = state.bricks@;
    let ghost old_len = state.bricks@.len() as int;
    let n = placements.len();
    proof {
        assert(placements@.len() == 500);
    }
    let mut k: usize = 0;
    while k < n
        invariant
            k <= n,
            n == placements@.len(),
            n == 500,
            state.wf(),
            base == old(state).next_entity,
            state.next_entity == base + k,
            bricks_old == old(state).bricks@,
            old_len == old(state).bricks@.len() as int,
            state.bricks@ == bricks_old + materialize_bricks(placements@.take(k as int), base),
            state.bricks@.len() == old_len + k,
            forall|t: int|
                old_len <= t < state.bricks@.len() ==> crate::geom::v2_within(
                    (#[trigger] state.bricks@[t]).pos,
                    0x1000000,
                ),
            forall|p: int|
                0 <= p < placements@.len() ==> gen_min_x(width) <= (
                #[trigger] placements@[p]).x < gen_max_x(width) && -6000000 <= placements@[p].y
                    <= 100000,
            state.players == old(state).players,
            state.ceiling == old(state).ceiling,
            state.scoreboard == old(state).scoreboard,
            state.score_timer == old(state).score_timer,
            state.bounds == old(state).bounds,
        decreases n - k,
    {
        let ghost bricks_pre = state.bricks@;
        proof {
            assert(placements@.take(k + 1).drop_last() =~= placements@.take(k as int));
            assert(placements@.take(k + 1).last() == placements@[k as int]);
        }
        let pl = placements[k];
        let id = state.next_entity;
        state.next_entity = id + 1;
        let px = (pl.x as i64) * 2;
        let py = (pl.y as i64) * 2;
        let b = match pl.kind {
            BrickType::Normal => Brick::new_normal(id, Vec2i { x: px, y: py }),
            BrickType::Fake => Brick::new_fake(id, Vec2i { x: px, y: py }),
            BrickType::Nails => Brick::new_nails(id, Vec2i { x: px, y: py + NAILS_BRICK_OFFSET }),
            BrickType::Conveyor => {
                let dir = match pl.direction {
                    Some(d) => d,
                    None => ConveyorDirection::Right,
                };
                Brick::new_conveyor(id, dir, Vec2i { x: px, y: py })
            },
            BrickType::Spring => Brick::new_spring(id, Vec2i { x: px, y: py }),
        };
        state.bricks.push(b);
        proof {
            assert(b == brick_of_placement(placements@[k as int], (base + k) as u64));
            assert(state.bricks@ =~= bricks_pre + seq![b]);
            assert(state.bricks@ =~= bricks_old + materialize_bricks(
                placements@.take(k + 1),
                base,
            ));
        }
        k += 1;
    }
    proof {
        assert(placements@.take(n as int) =~= placements@);
    }
}

/// Places the fixed demonstration layout: one brick of each behavior
/// within reach of the spawn point.
pub fn spawn_bricks(state: &mut GameState)
    requires
        old(state).wf(),
        old(state).next_entity <= u64::MAX - 7,
    ensures
        final(state).wf(),
        final(state).bricks@.len() == old(state).bricks@.len() + 7,
        final(state).next_entity == old(state).next_entity + 7,
        forall|t: int|
            0 <= t < old(state).bricks@.len() ==> #[trigger] final(state).bricks@[t] == old(
                state,
            ).bricks@[t],
        ({
            let l = old(state).bricks@.len() as int;
            let base = old(state).next_entity;
            &&& final(state).bricks@[l] == Brick::new_normal_spec(
                base,
                Vec2i { x: 0, y: (-200) as i64 },
            )
            &&& final(state).bricks@[l + 1] == Brick::new_nails_spec(
                (base + 1) as u64,
                Vec2i { x: 200, y: (-400) as i64 },
            )
            &&& final(state).bricks@[l + 2] == Brick::new_fake_spec(
                (base + 2) as u64,
                Vec2i { x: (-200) as i64, y: (-400) as i64 },
            )
            &&& final(state).bricks@[l + 3] == Brick::new_spring_spec(
                (base + 3) as u64,
                Vec2i { x: (-300) as i64, y: (-560) as i64 },
            )
            &&& final(state).bricks@[l + 4] == Brick::new_spring_spec(
                (base + 4) as u64,
                Vec2i { x: 300, y: (-560) as i64 },
            )
            &&& final(state).bricks@[l + 5] == Brick::new_conveyor_spec(
                (base + 5) as u64,
                ConveyorDirection::Left,
                Vec2i { x: 260, y: (-660) as i64 },
            )
            &&& final(state).bricks@[l + 6] == Brick::new_conveyor_spec(
                (base + 6) as u64,
                ConveyorDirection::Right,
                Vec2i { x: 0, y: (-660) as i64 },
            )
        }),
        final(state).players == old(state).players,
        final(state).ceiling == old(state).ceiling,
        final(state).scoreboard == old(state).scoreboard,
        final(state).score_timer == old(state).score_timer,
        final(state).bounds == old(state).bounds,
{
    let id = state.next_entity;
    state.bricks.push(Brick::new_normal(id, Vec2i { x: 0, y: -200 }));
    state.bricks.push(Brick::new_nails(id + 1, Vec2i { x: 200, y: -400 }));
    state.bricks.push(Brick::new_fake(id + 2, Vec2i { x: -200, y: -400 }));
    state.bricks.push(Brick::new_spring(id + 3, Vec2i { x: -300, y: -560 }));
    state.bricks.push(Brick::new_spring(id + 4, Vec2i { x: 300, y: -560 }));
    state.bricks.push(Brick::new_conveyor(id + 5, ConveyorDirection::Left, Vec2i { x: 260, y: -660 }));
    state.bricks.push(Brick::new_conveyor(id + 6, ConveyorDirection::Right, Vec2i { x: 0, y: -660 }));
    state.next_entity = id + 7;
}

/// Places the four drifting wall segments, two per side, each
/// teleporting back down once it has risen its own height.
pub fn spawn_walls(state: &mut GameState)
    requires
        old(state).wf(),
        old(state).next_entity <= u64::MAX - 4,
    ensures
        final(state).wf(),
        final(state).bricks@.len() == old(state).bricks@.len() + 4,
        final(state).next_entity == old(state).next_entity + 4,
        forall|t: int|
            0 <= t < old(state).bricks@.len() ==> #[trigger] final(state).bricks@[t] == old(
                state,
            ).bricks@[t],
        ({
            let x = (old(state).bounds.x / 2 - WALL_WIDTH / 2) as i64;
            let l = old(state).bricks@.len() as int;
            &&& final(state).bricks@[l] == Brick::new_wall_spec(
                old(state).next_entity,
                Vec2i { x, y: 0 },
                Some(
                    WallPositionReset {
                        restore_position: Vec2i { x, y: 0 },
                        target_y: (WALL_HEIGHT / 2) as i64,
                    },
                ),
            )
            &&& final(state).bricks@[l + 1] == Brick::new_wall_spec(
                (old(state).next_entity + 1) as u64,
                Vec2i { x, y: (-WALL_HEIGHT) as i64 },
                Some(
                    WallPositionReset {
                        restore_position: Vec2i { x, y: (-WALL_HEIGHT) as i64 },
                        target_y: 0,
                    },
                ),
            )
            &&& final(state).bricks@[l + 2] == Brick::new_wall_spec(
                (old(state).next_entity + 2) as u64,
                Vec2i { x: (0 - x) as i64, y: 0 },
                Some(
                    WallPositionReset {
                        restore_position: Vec2i { x: (0 - x) as i64, y: 0 },
                        target_y: (WALL_HEIGHT / 2) as i64,
                    },
                ),
            )
            &&& final(state).bricks@[l + 3] == Brick::new_wall_spec(
                (old(state).next_entity + 3) as u64,
                Vec2i { x: (0 - x) as i64, y: (-WALL_HEIGHT) as i64 },
                Some(
                    WallPositionReset {
                        restore_position: Vec2i { x: (0 - x) as i64, y: (-WALL_HEIGHT) as i64 },
                        target_y: 0,
                    },
                ),
            )
        }),
        final(state).players == old(state).players,
        final(state).ceiling == old(state).ceiling,
        final(state).scoreboard == old(state).scoreboard,
        final(state).score_timer == old(state).score_timer,
        final(state).bounds == old(state).bounds,
{
    let id = state.next_entity;
    let x = state.bounds.x / 2 - WALL_WIDTH / 2;
    state.bricks.push(
        Brick::new_wall(
            id,
            Vec2i { x, y: 0 },
            Some(WallPositionReset { restore_position: Vec2i { x, y: 0 }, target_y: WALL_HEIGHT / 2 }),
        ),
    );
    state.bricks.push(
        Brick::new_wall(
            id + 1,
            Vec2i { x, y: -WALL_HEIGHT },
            Some(
                WallPositionReset {
                    restore_position: Vec2i { x, y: -WALL_HEIGHT },
                    target_y: 0,
                },
            ),
        ),
    );
    state.bricks.push(
        Brick::new_wall(
            id + 2,
            Vec2i { x: -x, y: 0 },
            Some(
                WallPositionReset {
                    restore_position: Vec2i { x: -x, y: 0 },
                    target_y: WALL_HEIGHT / 2,
                },
            ),
        ),
    );
    state.bricks.push(
        Brick::new_wall(
            id + 3,
            Vec2i { x: -x, y: -WALL_HEIGHT },
            Some(
                WallPositionReset {
                    restore_position: Vec2i { x: -x, y: -WALL_HEIGHT },
                    target_y: 0,
                },
            ),
        ),
    );
    state.next_entity = id + 4;
}

/// Places the ceiling hazard strip just below the status bar.
pub fn spawn_ceiling(state: &mut GameState)
    requires
        old(state).wf(),
    ensures
        final(state).wf(),
        final(state).ceiling == Some(
            Ceiling {
                pos: Vec2i {
                    x: 0,
                    y: (old(state).bounds.y / 2 - IN_GAME_UI_APP_BAR_HEIGHT - CELLING_HEIGHT
                        / 2) as i64,
                },
                hitbox: crate::brick::CeilingHitbox(
                    crate::geom::BoxCollider {
                        size: Vec2i {
                            x: crate::constants::CELLING_WIDTH,
                            y: crate::constants::CELLING_HEIGHT,
                        },
                        center: Vec2i { x: 0, y: 0 },
                    },
                ),
            },
        ),
        final(state).players == old(state).players,
        final(state).bricks == old(state).bricks,
        final(state).scoreboard == old(state).scoreboard,
        final(state).score_timer == old(state).score_timer,
        final(state).bounds == old(state).bounds,
        final(state).next_entity == old(state).next_entity,
{
    let y = state.bounds.y / 2 - IN_GAME_UI_APP_BAR_HEIGHT - CELLING_HEIGHT / 2;
    let c = Ceiling::new(Vec2i { x: 0, y });
    state.ceiling = Some(c);
}

/// Spawns the session's players in a row at the start height, handles
/// counted from zero.
#[verifier::loop_isolation(false)]
pub fn spawn_players(state: &mut GameState, num_players: u32)
    requires
        old(state).wf(),
        num_players <= 1000,
        old(state).next_entity <= u64::MAX - 1000,
    ensures
        final(state).wf(),
        final(state).players@.len() == old(state).players@.len() + num_players,
        final(state).next_entity == old(state).next_entity + num_players,
        forall|t: int|
            0 <= t < old(state).players@.len() ==> #[trigger] final(state).players@[t] == old(
                state,
            ).players@[t],
        forall|t: int|
            old(state).players@.len() <= t < final(state).players@.len() ==> (
            #[trigger] final(state).players@[t]).fresh_spec(
                (old(state).next_entity + (t - old(state).players@.len())) as u64,
                (t - old(state).players@.len()) as u32,
                Vec2i { x: (64 * (t - old(state).players@.len())) as i64, y: 400 },
            ),
        final(state).bricks == old(state).bricks,
        final(state).ceiling == old(state).ceiling,
        final(state).scoreboard == old(state).scoreboard,
        final(state).score_timer == old(state).score_timer,
        final(state).bounds == old(state).bounds,
{
    let ghost players_old = state.players@;
    let ghost old_len = state.players@.len() as int;
    let ghost base = state.next_entity;
    let mut handle: u32 = 0;
    while handle < num_players
        invariant
            handle <= num_players,
            num_players <= 1000,
            state.wf(),
            base == old(state).next_entity,
            base <= u64::MAX - 1000,
            state.next_entity == base + handle,
            old_len == old(state).players@.len() as int,
            state.players@.len() == old_len + handle,
            forall|t: int| 0 <= t < old_len ==> #[trigger] state.players@[t] == players_old[t],
            forall|t: int|
                old_len <= t < state.players@.len() ==> (
                #[trigger] state.players@[t]).fresh_spec(
                    (base + (t - old_len)) as u64,
                    (t - old_len) as u32,
                    Vec2i { x: (64 * (t - old_len)) as i64, y: 400 },
                ),
            state.bricks == old(state).bricks,
            state.ceiling == old(state).ceiling,
            state.scoreboard == old(state).scoreboard,
            state.score_timer == old(state).score_timer,
            state.bounds == old(state).bounds,
        decreases num_players - handle,
    {
        let id = state.next_entity;
        state.next_entity = id + 1;
        let p = Player::new(id, handle, Vec2i { x: 64 * (handle as i64), y: 400 });
        state.players.push(p);
        handle += 1;
    }
}

} // verus!
