//! Brick behavior handlers: each drains its own trigger queue, emitted by
//! the collision resolver earlier in the same tick, in queue order.

use vstd::prelude::*;
use crate::brick::{Brick, BrickKind, ConveyorDirection, FakePhase, SpringState};
use crate::constants::{FAKE_FLIP_DELAY_TICKS, JUMPING_TICKS, SPRING_STATE_TICKS};
use crate::events::{
    CollisionEvent, FakeBrickTriggerEnterEvent, NormalBrickTriggerEnterEvent,
    SpringBrickTriggerEnterEvent, TickEvents,
};
use crate::geom::Side;
use crate::health::health_clamp;
use crate::player::{JumpState, Player, PlayerView};
use crate::state::{
    find_brick, find_brick_index, find_player, find_player_index, lemma_find_brick_same_ids,
    GameState,
};

verus! {

/// A player with its health moved by `delta`, clamped into range.
pub open spec fn heal(p: PlayerView, delta: int) -> PlayerView {
    PlayerView { health_value: health_clamp(p.health_max, p.health_value + delta), ..p }
}

/// What one normal-brick trigger does: a first contact from above heals
/// the entered player by one point.
pub open spec fn apply_normal_trigger(
    players: Seq<PlayerView>,
    ev: NormalBrickTriggerEnterEvent,
) -> Seq<PlayerView> {
    if ev.0.collision is Top {
        match find_player(players, ev.0.other) {
            Some(i) => if !players[i].dead {
                players.update(i, heal(players[i], 1))
            } else {
                players
            },
            None => players,
        }
    } else {
        players
    }
}

/// The normal-brick queue drained in order.
pub open spec fn apply_normal_triggers(
    players: Seq<PlayerView>,
    evs: Seq<NormalBrickTriggerEnterEvent>,
) -> Seq<PlayerView>
    decreases evs.len(),
{
    if evs.len() == 0 {
        players
    } else {
        apply_normal_trigger(apply_normal_triggers(players, evs.drop_last()), evs.last())
    }
}

/// Grants one health point per first contact from above on a normal
/// brick.
#[verifier::loop_isolation(false)]
pub fn normal_brick_trigger_enter_system(state: &mut GameState, events: &TickEvents)
    requires
        old(state).wf(),
    ensures
        final(state).wf(),
        final(state).players@.len() == old(state).players@.len(),
        final(state).players@.map_values(|p: Player| p@) == apply_normal_triggers(
            old(state).players@.map_values(|p: Player| p@),
            events.normal_triggers@,
        ),
        final(state).bricks == old(state).bricks,
        final(state).ceiling == old(state).ceiling,
        final(state).scoreboard == old(state).scoreboard,
        final(state).score_timer == old(state).score_timer,
        final(state).bounds == old(state).bounds,
        final(state).next_entity == old(state).next_entity,
{
    let ghost views0 = old(state).players@.map_values(|p: Player| p@);
    let ne = events.normal_triggers.len();
    let mut e: usize = 0;
    proof {
        assert(events.normal_triggers@.take(0) =~= Seq::<NormalBrickTriggerEnterEvent>::empty());
    }
    while e < ne
        invariant
            e <= ne,
            ne == events.normal_triggers@.len(),
            state.wf(),
            state.players@.len() == old(state).players@.len(),
            state.players@.map_values(|p: Player| p@) == apply_normal_triggers(
                views0,
                events.normal_triggers@.take(e as int),
            ),
            state.bricks == old(state).bricks,
            state.ceiling == old(state).ceiling,
            state.scoreboard == old(state).scoreboard,
            state.score_timer == old(state).score_timer,
            state.bounds == old(state).bounds,
            state.next_entity == old(state).next_entity,
        decreases ne - e,
    {
        let ghost views_pre = state.players@.map_values(|p: Player| p@);
        proof {
            assert(events.normal_triggers@.take(e + 1).drop_last() =~= events.normal_triggers@.take(
                e as int,
            ));
        }
        let ev = events.normal_triggers[e];
        if matches!(ev.0.collision, Side::Top) {
            if let Some(i) = find_player_index(&state.players, ev.0.other) {
                if !state.players[i].dead {
                    let pm = &mut state.players[i];
                    pm.health.gain_one();
                    proof {
                        assert(state.players@[i as int]@ =~= heal(views_pre[i as int], 1));
                        assert(state.players@.map_values(|p: Player| p@) =~= views_pre.update(
                            i as int,
                            heal(views_pre[i as int], 1),
                        ));
                    }
                }
            }
        }
        proof {
            assert(state.players@.map_values(|p: Player| p@) =~= apply_normal_trigger(
                views_pre,
                events.normal_triggers@[e as int],
            ));
        }
        e += 1;
    }
    proof {
        assert(events.normal_triggers@.take(ne as int) =~= events.normal_triggers@);
    }
}

/// What one fake-brick trigger does: a first contact from above on an
/// idle fake brick schedules its flip delay; a brick already pending or
/// flipping is left exactly as it is.
pub open spec fn apply_fake_trigger(
    bricks: Seq<Brick>,
    ev: FakeBrickTriggerEnterEvent,
) -> Seq<Brick> {
    if ev.0.collision is Top {
        match find_brick(bricks, ev.0.myself) {
            Some(i) => match bricks[i].kind {
                BrickKind::Fake { phase: FakePhase::Idle } => bricks.update(
                    i,
                    Brick {
                        kind: BrickKind::Fake {
                            phase: FakePhase::PendingFlip { ticks_left: FAKE_FLIP_DELAY_TICKS },
                        },
                        ..bricks[i]
                    },
                ),
                _ => bricks,
            },
            None => bricks,
        }
    } else {
        bricks
    }
}

/// The fake-brick queue drained in order.
pub open spec fn apply_fake_triggers(
    bricks: Seq<Brick>,
    evs: Seq<FakeBrickTriggerEnterEvent>,
) -> Seq<Brick>
    decreases evs.len(),
{
    if evs.len() == 0 {
        bricks
    } else {
        apply_fake_trigger(apply_fake_triggers(bricks, evs.drop_last()), evs.last())
    }
}

/// Schedules the flip delay of each idle fake brick entered from above.
#[verifier::loop_isolation(false)]
pub fn fake_brick_trigger_enter_system(state: &mut GameState, events: &TickEvents)
    requires
        old(state).wf(),
    ensures
        final(state).wf(),
        final(state).bricks@.len() == old(state).bricks@.len(),
        final(state).bricks@ == apply_fake_triggers(old(state).bricks@, events.fake_triggers@),
        final(state).players == old(state).players,
        final(state).ceiling == old(state).ceiling,
        final(state).scoreboard == old(state).scoreboard,
        final(state).score_timer == old(state).score_timer,
        final(state).bounds == old(state).bounds,
        final(state).next_entity == old(state).next_entity,
{
    let ghost bricks0 = old(state).bricks@;
    let ne = events.fake_triggers.len();
    let mut e: usize = 0;
    proof {
        assert(events.fake_triggers@.take(0) =~= Seq::<FakeBrickTriggerEnterEvent>::empty());
    }
    while e < ne
        invariant
            e <= ne,
            ne == events.fake_triggers@.len(),
            state.wf(),
            state.bricks@.len() == old(state).bricks@.len(),
            state.bricks@ == apply_fake_triggers(bricks0, events.fake_triggers@.take(e as int)),
            state.players == old(state).players,
            state.ceiling == old(state).ceiling,
            state.scoreboard == old(state).scoreboard,
            state.score_timer == old(state).score_timer,
            state.bounds == old(state).bounds,
            state.next_entity == old(state).next_entity,
        decreases ne - e,
    {
        let ghost bricks_pre = state.bricks@;
        proof {
            assert(events.fake_triggers@.take(e + 1).drop_last() =~= events.fake_triggers@.take(
                e as int,
            ));
        }
        let ev = events.fake_triggers[e];
        if matches!(ev.0.collision, Side::Top) {
            if let Some(i) = find_brick_index(&state.bricks, ev.0.myself) {
                if matches!(state.bricks[i].kind, BrickKind::Fake { phase: FakePhase::Idle }) {
                    let bm = &mut state.bricks[i];
                    bm.kind = BrickKind::Fake {
                        phase: FakePhase::PendingFlip { ticks_left: FAKE_FLIP_DELAY_TICKS },
                    };
                    proof {
                        assert(state.bricks@ =~= bricks_pre.update(
                            i as int,
                            Brick {
                                kind: BrickKind::Fake {
                                    phase: FakePhase::PendingFlip {
                                        ticks_left: FAKE_FLIP_DELAY_TICKS,
                                    },
                                },
                                ..bricks_pre[i as int]
                            },
                        ));
                    }
                }
            }
        }
        proof {
            assert(state.bricks@ =~= apply_fake_trigger(
                bricks_pre,
                events.fake_triggers@[e as int],
            ));
        }
        e += 1;
    }
    proof {
        assert(events.fake_triggers@.take(ne as int) =~= events.fake_triggers@);
    }
}

/// The jump and health a spring grants to a player that is neither
/// already jumping nor dead.
pub open spec fn spring_grant(p: PlayerView) -> PlayerView {
    PlayerView { jump: JumpState::Jumping { ticks_left: JUMPING_TICKS }, ..heal(p, 1) }
}

/// What one spring-brick trigger does: a first contact from above puts
/// the spring into its sprung state (restarting the bounce if it was
/// already sprung) and, if the entering player is neither jumping nor
/// dead, grants one health point and a jump window.
pub open spec fn apply_spring_trigger(
    players: Seq<PlayerView>,
    bricks: Seq<Brick>,
    ev: SpringBrickTriggerEnterEvent,
) -> (Seq<PlayerView>, Seq<Brick>) {
    if !(ev.0.collision is Top) {
        (players, bricks)
    } else {
        match find_brick(bricks, ev.0.myself) {
            Some(bi) => match bricks[bi].kind {
                BrickKind::Spring { .. } => {
                    let bricks1 = bricks.update(
                        bi,
                        Brick {
                            kind: BrickKind::Spring {
                                state: SpringState::Sprung { ticks_left: SPRING_STATE_TICKS },
                            },
                            ..bricks[bi]
                        },
                    );
                    match find_player(players, ev.0.other) {
                        Some(pi) => if !players[pi].dead && !(players[pi].jump is Jumping) {
                            (players.update(pi, spring_grant(players[pi])), bricks1)
                        } else {
                            (players, bricks1)
                        },
                        None => (players, bricks1),
                    }
                },
                _ => (players, bricks),
            },
            None => (players, bricks),
        }
    }
}

/// The spring-brick queue drained in order.
pub open spec fn apply_spring_triggers(
    players: Seq<PlayerView>,
    bricks: Seq<Brick>,
    evs: Seq<SpringBrickTriggerEnterEvent>,
) -> (Seq<PlayerView>, Seq<Brick>)
    decreases evs.len(),
{
    if evs.len() == 0 {
        (players, bricks)
    } else {
        let pre = apply_spring_triggers(players, bricks, evs.drop_last());
        apply_spring_trigger(pre.0, pre.1, evs.last())
    }
}

/// Springs each spring brick entered from above and grants the entering
/// player a jump window and one health point.
#[verifier::loop_isolation(false)]
pub fn spring_brick_trigger_enter_system(state: &mut GameState, events: &TickEvents)
    requires
        old(state).wf(),
    ensures
        final(state).wf(),
        final(state).players@.len() == old(state).players@.len(),
        final(state).bricks@.len() == old(state).bricks@.len(),
        ({
            let out = apply_spring_triggers(
                old(state).players@.map_values(|p: Player| p@),
                old(state).bricks@,
                events.spring_triggers@,
            );
            final(state).players@.map_values(|p: Player| p@) == out.0 && final(state).bricks@
                == out.1
        }),
        final(state).ceiling == old(state).ceiling,
        final(state).scoreboard == old(state).scoreboard,
        final(state).score_timer == old(state).score_timer,
        final(state).bounds == old(state).bounds,
        final(state).next_entity == old(state).next_entity,
{
    let ghost views0 = old(state).players@.map_values(|p: Player| p@);
    let ghost bricks0 = old(state).bricks@;
    let ne = events.spring_triggers.len();
    let mut e: usize = 0;
    proof {
        assert(events.spring_triggers@.take(0) =~= Seq::<SpringBrickTriggerEnterEvent>::empty());
    }
    while e < ne
        invariant
            e <= ne,
            ne == events.spring_triggers@.len(),
            state.wf(),
            state.players@.len() == old(state).players@.len(),
            state.bricks@.len() == old(state).bricks@.len(),
            ({
                let out = apply_spring_triggers(
                    views0,
                    bricks0,
                    events.spring_triggers@.take(e as int),
                );
                state.players@.map_values(|p: Player| p@) == out.0 && state.bricks@ == out.1
            }),
            state.ceiling == old(state).ceiling,
            state.scoreboard == old(state).scoreboard,
            state.score_timer == old(state).score_timer,
            state.bounds == old(state).bounds,
            state.next_entity == old(state).next_entity,
        decreases ne - e,
    {
        let ghost views_pre = state.players@.map_values(|p: Player| p@);
        let ghost bricks_pre = state.bricks@;
        proof {
            assert(events.spring_triggers@.take(e + 1).drop_last() =~= events.spring_triggers@.take(
                e as int,
            ));
        }
        let ev = events.spring_triggers[e];
        if matches!(ev.0.collision, Side::Top) {
            if let Some(bi) = find_brick_index(&state.bricks, ev.0.myself) {
                if matches!(state.bricks[bi].kind, BrickKind::Spring { .. }) {
                    let bm = &mut state.bricks[bi];
                    bm.kind = BrickKind::Spring {
                        state: SpringState::Sprung { ticks_left: SPRING_STATE_TICKS },
                    };
                    proof {
                        assert(state.bricks@ =~= bricks_pre.update(
                            bi as int,
                            Brick {
                                kind: BrickKind::Spring {
                                    state: SpringState::Sprung { ticks_left: SPRING_STATE_TICKS },
                                },
                                ..bricks_pre[bi as int]
                            },
                        ));
                    }
                    if let Some(pi) = find_player_index(&state.players, ev.0.other) {
                        let grant = !state.players[pi].dead && !matches!(
                            state.players[pi].jump,
                            JumpState::Jumping { .. },
                        );
                        if grant {
                            let pm = &mut state.players[pi];
                            pm.health.gain_one();
                            pm.jump = JumpState::Jumping { ticks_left: JUMPING_TICKS };
                            proof {
                                assert(state.players@[pi as int]@ =~= spring_grant(
                                    views_pre[pi as int],
                                ));
                                assert(state.players@.map_values(|p: Player| p@)
                                    =~= views_pre.update(
                                    pi as int,
                                    spring_grant(views_pre[pi as int]),
                                ));
                            }
                        }
                    }
                }
            }
        }
        proof {
            let out = apply_spring_trigger(
                views_pre,
                bricks_pre,
                events.spring_triggers@[e as int],
            );
            assert(state.players@.map_values(|p: Player| p@) =~= out.0);
            assert(state.bricks@ =~= out.1);
        }
        e += 1;
    }
    proof {
        assert(events.spring_triggers@.take(ne as int) =~= events.spring_triggers@);
    }
}

/// The same, over the queue itself: a queue holding the trigger twice
/// leaves the bricks exactly as the queue holding it once.
pub proof fn lemma_fake_duplicate_queue(
    bricks: Seq<Brick>,
    e1: FakeBrickTriggerEnterEvent,
    e2: FakeBrickTriggerEnterEvent,
)
    requires
        e1.0.collision is Top,
        e2.0.myself == e1.0.myself,
    ensures
        apply_fake_triggers(bricks, seq![e1, e2]) == apply_fake_triggers(bricks, seq![e1]),
{
    assert(seq![e1, e2].drop_last() =~= seq![e1]);
    assert(seq![e1].drop_last() =~= Seq::<FakeBrickTriggerEnterEvent>::empty());
    assert(seq![e1, e2].last() == e2);
    assert(seq![e1].last() == e1);
    let inner = apply_fake_triggers(bricks, seq![e1].drop_last());
    assert(inner == bricks);
    assert(apply_fake_triggers(bricks, seq![e1]) == apply_fake_trigger(inner, e1));
    assert(apply_fake_triggers(bricks, seq![e1, e2]) == apply_fake_trigger(
        apply_fake_triggers(bricks, seq![e1, e2].drop_last()),
        e2,
    ));
    lemma_fake_trigger_idempotent(bricks, e1, e2);
}

/// The direction of the conveyor brick bearing `id`, if there is one.
pub open spec fn conveyor_dir_of(bricks: Seq<Brick>, id: u64) -> Option<ConveyorDirection> {
    match find_brick(bricks, id) {
        Some(i) => match bricks[i].kind {
            BrickKind::Conveyor { direction } => Some(direction),
            _ => None,
        },
        None => None,
    }
}

/// Whether a collision record says this player stands on a conveyor: the
/// player on top of a brick that is a conveyor.
pub open spec fn conveyor_match(ev: CollisionEvent, bricks: Seq<Brick>, pid: u64) -> bool {
    ev.a == pid && ev.a_is_player && !ev.b_is_player && ev.collision is Top && conveyor_dir_of(
        bricks,
        ev.b,
    ) is Some
}

/// The direction of the first conveyor this player stands on this tick,
/// in collision-record order, if any.
pub open spec fn conveyor_hit(
    evs: Seq<CollisionEvent>,
    bricks: Seq<Brick>,
    pid: u64,
) -> Option<ConveyorDirection>
    decreases evs.len(),
{
    if evs.len() == 0 {
        None
    } else if conveyor_match(evs[0], bricks, pid) {
        conveyor_dir_of(bricks, evs[0].b)
    } else {
        conveyor_hit(evs.drop_first(), bricks, pid)
    }
}

/// `conveyor_hit` takes the first matching record: a hit means some
/// record matches and none before it does; a miss means none matches.
pub proof fn lemma_conveyor_hit(evs: Seq<CollisionEvent>, bricks: Seq<Brick>, pid: u64)
    ensures
        match conveyor_hit(evs, bricks, pid) {
            Some(d) => exists|e: int|
                0 <= e < evs.len() && conveyor_match(#[trigger] evs[e], bricks, pid)
                    && conveyor_dir_of(bricks, evs[e].b) == Some(d) && forall|k: int|
                    0 <= k < e ==> !conveyor_match(#[trigger] evs[k], bricks, pid),
            None => forall|k: int|
                0 <= k < evs.len() ==> !conveyor_match(#[trigger] evs[k], bricks, pid),
        },
    decreases evs.len(),
{
    if evs.len() > 0 && !conveyor_match(evs[0], bricks, pid) {
        let rest = evs.drop_first();
        lemma_conveyor_hit(rest, bricks, pid);
        assert(forall|k: int| 1 <= k < evs.len() ==> evs[k] == #[trigger] rest[k - 1]);
        match conveyor_hit(rest, bricks, pid) {
            Some(d) => {
                let e = choose|e: int|
                    0 <= e < rest.len() && conveyor_match(#[trigger] rest[e], bricks, pid)
                        && conveyor_dir_of(bricks, rest[e].b) == Some(d) && forall|k: int|
                        0 <= k < e ==> !conveyor_match(#[trigger] rest[k], bricks, pid);
                assert(conveyor_match(evs[e + 1], bricks, pid));
                assert forall|k: int| 0 <= k < e + 1 implies !conveyor_match(
                    #[trigger] evs[k],
                    bricks,
                    pid,
                ) by {
                    if k >= 1 {
                        assert(!conveyor_match(rest[k - 1], bricks, pid));
                    }
                }
            },
            None => {
                assert forall|k: int| 0 <= k < evs.len() implies !conveyor_match(
                    #[trigger] evs[k],
                    bricks,
                    pid,
                ) by {
                    if k >= 1 {
                        assert(!conveyor_match(rest[k - 1], bricks, pid));
                    }
                }
            },
        }
    }
}

/// What the conveyor pass makes of one player: standing on a conveyor
/// attaches the moved-by-conveyor marker, leaving contact detaches it,
/// and health is untouched either way — a conveyor only biases motion.
pub open spec fn conveyor_step_player(
    p: PlayerView,
    evs: Seq<CollisionEvent>,
    bricks: Seq<Brick>,
) -> PlayerView {
    if p.dead {
        p
    } else {
        match conveyor_hit(evs, bricks, p.id) {
            Some(dir) => match p.conveyor_moved {
                Some(_) => p,
                None => PlayerView { conveyor_moved: Some(dir), ..p },
            },
            None => PlayerView { conveyor_moved: None, ..p },
        }
    }
}

/// Attaches or detaches each player's moved-by-conveyor marker from this
/// tick's collision records.
#[verifier::loop_isolation(false)]
pub fn player_on_conveyor_system(state: &mut GameState, events: &TickEvents)
    requires
        old(state).wf(),
    ensures
        final(state).wf(),
        final(state).players@.len() == old(state).players@.len(),
        forall|i: int|
            0 <= i < old(state).players@.len() ==> (#[trigger] final(state).players@[i])@
                == conveyor_step_player(
                old(state).players@[i]@,
                events.collisions@,
                old(state).bricks@,
            ),
        final(state).bricks == old(state).bricks,
        final(state).ceiling == old(state).ceiling,
        final(state).scoreboard == old(state).scoreboard,
        final(state).score_timer == old(state).score_timer,
        final(state).bounds == old(state).bounds,
        final(state).next_entity == old(state).next_entity,
{
    let ghost players0 = old(state).players@;
    let ghost bricks0 = old(state).bricks@;
    let np = state.players.len();
    let mut i: usize = 0;
    while i < np
        invariant
            i <= np,
            np == players0.len(),
            state.players@.len() == players0.len(),
            state.wf(),
            forall|k: int|
                0 <= k < i ==> (#[trigger] state.players@[k])@ == conveyor_step_player(
                    players0[k]@,
                    events.collisions@,
                    bricks0,
                ),
            forall|k: int| i <= k < np ==> state.players@[k] == players0[k],
            state.bricks == old(state).bricks,
            state.bricks@ == bricks0,
            state.ceiling == old(state).ceiling,
            state.scoreboard == old(state).scoreboard,
            state.score_timer == old(state).score_timer,
            state.bounds == old(state).bounds,
            state.next_entity == old(state).next_entity,
        decreases np - i,
    {
        let ghost pv = players0[i as int]@;
        if !state.players[i].dead {
            let pid = state.players[i].id;
            let ne = events.collisions.len();
            let mut e: usize = 0;
            let mut found: Option<ConveyorDirection> = None;
            while e < ne
                invariant
                    e <= ne,
                    ne == events.collisions@.len(),
                    state.bricks@ == bricks0,
                    match found {
                        None => forall|k: int|
                            0 <= k < e ==> !conveyor_match(
                                #[trigger] events.collisions@[k],
                                bricks0,
                                pid,
                            ),
                        Some(d) => conveyor_hit(events.collisions@, bricks0, pid) == Some(d),
                    },
                decreases ne - e,
            {
                if found.is_none() {
                    let ev = events.collisions[e];
                    if ev.a == pid && ev.a_is_player && !ev.b_is_player && matches!(
                        ev.collision,
                        Side::Top,
                    ) {
                        if let Some(bi) = find_brick_index(&state.bricks, ev.b) {
                            if let BrickKind::Conveyor { direction } = state.bricks[bi].kind {
                                found = Some(direction);
                                proof {
                                    assert(conveyor_match(
                                        events.collisions@[e as int],
                                        bricks0,
                                        pid,
                                    ));
                                    assert(conveyor_dir_of(bricks0, ev.b) == Some(direction));
                                    lemma_conveyor_hit(events.collisions@, bricks0, pid);
                                    match conveyor_hit(events.collisions@, bricks0, pid) {
                                        Some(d) => {
                                            let w = choose|w: int|
                                                0 <= w < events.collisions@.len()
                                                    && conveyor_match(
                                                    #[trigger] events.collisions@[w],
                                                    bricks0,
                                                    pid,
                                                ) && conveyor_dir_of(
                                                    bricks0,
                                                    events.collisions@[w].b,
                                                ) == Some(d) && forall|k: int|
                                                    0 <= k < w ==> !conveyor_match(
                                                        #[trigger] events.collisions@[k],
                                                        bricks0,
                                                        pid,
                                                    );
                                            if w < e {
                                                assert(!conveyor_match(
                                                    events.collisions@[w],
                                                    bricks0,
                                                    pid,
                                                ));
                                            }
                                            if e < w {
                                                assert(!conveyor_match(
                                                    events.collisions@[e as int],
                                                    bricks0,
                                                    pid,
                                                ));
                                            }
                                            assert(w == e);
                                        },
                                        None => {
                                            assert(!conveyor_match(
                                                events.collisions@[e as int],
                                                bricks0,
                                                pid,
                                            ));
                                        },
                                    }
                                }
                            }
                        }
                    }
                }
                e += 1;
            }
            proof {
                lemma_conveyor_hit(events.collisions@, bricks0, pid);
            }
            match found {
                Some(direction) => {
                    let attach = state.players[i].conveyor_moved.is_none();
                    if attach {
                        let pm = &mut state.players[i];
                        pm.conveyor_moved = Some(direction);
                        proof {
                            assert(state.players@[i as int]@ =~= (PlayerView {
                                conveyor_moved: Some(direction),
                                ..pv
                            }));
                        }
                    }
                },
                None => {
                    let pm = &mut state.players[i];
                    pm.conveyor_moved = None;
                    proof {
                        assert(state.players@[i as int]@ =~= (PlayerView {
                            conveyor_moved: None,
                            ..pv
                        }));
                    }
                },
            }
            proof {
                assert(state.players@[i as int]@ == conveyor_step_player(
                    pv,
                    events.collisions@,
                    bricks0,
                ));
            }
        }
        i += 1;
    }
}

/// The fake-brick lifecycle is idempotent against duplicate triggers:
/// once one contact from above has scheduled the flip delay, a second
/// trigger for the same brick neither resets nor re-schedules it — the
/// brick list is left exactly as the first trigger left it.
pub proof fn lemma_fake_trigger_idempotent(
    bricks: Seq<Brick>,
    e1: FakeBrickTriggerEnterEvent,
    e2: FakeBrickTriggerEnterEvent,
)
    requires
        e1.0.collision is Top,
        e2.0.myself == e1.0.myself,
    ensures
        apply_fake_trigger(apply_fake_trigger(bricks, e1), e2) == apply_fake_trigger(bricks, e1),
{
    let b1 = apply_fake_trigger(bricks, e1);
    assert(b1.len() == bricks.len() && forall|k: int|
        0 <= k < bricks.len() ==> (#[trigger] b1[k]).id == bricks[k].id) by {
        crate::state::lemma_find_brick(bricks, e1.0.myself);
    }
    lemma_find_brick_same_ids(b1, bricks, e2.0.myself);
    crate::state::lemma_find_brick(bricks, e1.0.myself);
    if e2.0.collision is Top {
        match find_brick(b1, e2.0.myself) {
            Some(i) => {
                assert(find_brick(bricks, e1.0.myself) == Some(i));
                assert(!(b1[i].kind matches BrickKind::Fake { phase: FakePhase::Idle }));
            },
            None => {},
        }
    }
}

} // verus!
