//! One simulation tick: the whole ordered pipeline as a single function
//! of the previous state and this tick's steering inputs, which is what
//! rollback networking and replay rely on.
//!
//! The order within a tick is fixed: controller, integration, wall
//! recycling, the collision resolver, the brick reactions (spring,
//! normal, fake, conveyor), the contact hazards (ceiling, then nails),
//! the status derivation and animation selection, the countdown of every
//! timer, the out-of-bounds fallback, the death check, and scoring.
//! Steering inputs are written before the tick by the input systems.

use vstd::prelude::*;
use crate::brick::Brick;
use crate::constants::{POS_LIMIT, SIZE_LIMIT, TICK_DRIFT_LIMIT, TICK_POS_LIMIT};
use crate::events::{PlayerEnterDeadEvent, TickEvents, TickEventsView};
use crate::geom::{v2_within, Vec2i};
use crate::hazards::{ceiling_step_player, nails_step_player};
use crate::physics::{
    integrate_brick, integrate_player, resolve_player, resolver_events, resolver_skips,
    wall_reset_brick,
};
use crate::player::{Player, PlayerView};
use crate::score::{any_alive, score_step_player};
use crate::state::{GameState, ScoreTimer, Scoreboard};
use crate::status::{
    animate_step, ceiling_hurt_timer_step, controller_step, damaging_timer_step, dead_events,
    dead_step, fake_flip_delay_step, fake_flip_end_step, jumping_timer_step, movement_step,
    out_window_step, spring_end_step,
};
use crate::triggers::{
    apply_fake_triggers, apply_normal_triggers, apply_spring_triggers, conveyor_step_player,
};

verus! {

/// The mathematical image of everything one tick reads and writes.
#[verifier::ext_equal]
pub ghost struct SimView {
    pub players: Seq<PlayerView>,
    pub bricks: Seq<Brick>,
    pub ceiling: Option<crate::brick::Ceiling>,
    pub scoreboard: Scoreboard,
    pub score_timer: ScoreTimer,
    pub bounds: Vec2i,
}

pub open spec fn sim_view(s: GameState) -> SimView {
    SimView {
        players: s.players@.map_values(|p: Player| p@),
        bricks: s.bricks@,
        ceiling: s.ceiling,
        scoreboard: s.scoreboard,
        score_timer: s.score_timer,
        bounds: s.bounds,
    }
}

pub open spec fn stage_controller(s: SimView) -> SimView {
    SimView { players: s.players.map_values(|p: PlayerView| controller_step(p)), ..s }
}

pub open spec fn stage_integrate(s: SimView) -> SimView {
    SimView {
        players: s.players.map_values(|p: PlayerView| integrate_player(p)),
        bricks: s.bricks.map_values(|b: Brick| integrate_brick(b)),
        ..s
    }
}

pub open spec fn stage_wall_reset(s: SimView) -> SimView {
    SimView { bricks: s.bricks.map_values(|b: Brick| wall_reset_brick(b)), ..s }
}

pub open spec fn stage_resolve(s: SimView) -> (SimView, TickEventsView) {
    (
        SimView { players: s.players.map_values(|p: PlayerView| resolve_player(p, s.bricks)), ..s },
        resolver_events(s.players, s.bricks),
    )
}

pub open spec fn stage_spring(s: SimView, ev: TickEventsView) -> SimView {
    let out = apply_spring_triggers(s.players, s.bricks, ev.spring_triggers);
    SimView { players: out.0, bricks: out.1, ..s }
}

pub open spec fn stage_normal(s: SimView, ev: TickEventsView) -> SimView {
    SimView { players: apply_normal_triggers(s.players, ev.normal_triggers), ..s }
}

pub open spec fn stage_fake(s: SimView, ev: TickEventsView) -> SimView {
    SimView { bricks: apply_fake_triggers(s.bricks, ev.fake_triggers), ..s }
}

pub open spec fn stage_conveyor(s: SimView, ev: TickEventsView) -> SimView {
    SimView {
        players: s.players.map_values(
            |p: PlayerView| conveyor_step_player(p, ev.collisions, s.bricks),
        ),
        ..s
    }
}

pub open spec fn stage_ceiling(s: SimView) -> SimView {
    SimView { players: s.players.map_values(|p: PlayerView| ceiling_step_player(p, s.ceiling)), ..s }
}

pub open spec fn stage_nails(s: SimView) -> SimView {
    SimView { players: s.players.map_values(|p: PlayerView| nails_step_player(p, s.bricks)), ..s }
}

pub open spec fn stage_movement(s: SimView) -> SimView {
    SimView { players: s.players.map_values(|p: PlayerView| movement_step(p)), ..s }
}

pub open spec fn stage_animate(s: SimView) -> SimView {
    SimView { players: s.players.map_values(|p: PlayerView| animate_step(p)), ..s }
}

pub open spec fn stage_damaging(s: SimView) -> SimView {
    SimView { players: s.players.map_values(|p: PlayerView| damaging_timer_step(p)), ..s }
}

pub open spec fn stage_jumping(s: SimView) -> SimView {
    SimView { players: s.players.map_values(|p: PlayerView| jumping_timer_step(p)), ..s }
}

pub open spec fn stage_ceiling_timer(s: SimView) -> SimView {
    SimView { players: s.players.map_values(|p: PlayerView| ceiling_hurt_timer_step(p)), ..s }
}

pub open spec fn stage_fake_delay(s: SimView) -> SimView {
    SimView { bricks: s.bricks.map_values(|b: Brick| fake_flip_delay_step(b)), ..s }
}

pub open spec fn stage_fake_end(s: SimView) -> SimView {
    SimView { bricks: s.bricks.map_values(|b: Brick| fake_flip_end_step(b)), ..s }
}

pub open spec fn stage_spring_end(s: SimView) -> SimView {
    SimView { bricks: s.bricks.map_values(|b: Brick| spring_end_step(b)), ..s }
}

pub open spec fn stage_out_window(s: SimView) -> SimView {
    SimView { players: s.players.map_values(|p: PlayerView| out_window_step(p, s.bounds)), ..s }
}

pub open spec fn stage_dead(s: SimView) -> (SimView, Seq<PlayerEnterDeadEvent>) {
    (
        SimView { players: s.players.map_values(|p: PlayerView| dead_step(p)), ..s },
        dead_events(s.players),
    )
}

pub open spec fn stage_score(s: SimView) -> SimView {
    let ticked = s.score_timer.ticks_left <= 1;
    let alive = any_alive(s.players);
    let bump = ticked && alive;
    let new_score = if bump {
        (s.scoreboard.score + 1) as u64
    } else {
        s.scoreboard.score
    };
    SimView {
        players: if bump {
            s.players.map_values(|p: PlayerView| score_step_player(p, new_score))
        } else {
            s.players
        },
        scoreboard: Scoreboard { score: new_score },
        score_timer: ScoreTimer {
            ticks_left: if ticked {
                crate::constants::SCORE_INTERVAL_TICKS as u32
            } else {
                (s.score_timer.ticks_left - 1) as u32
            },
        },
        ..s
    }
}

/// The motion segment: controller, integration, wall recycling, and the
/// collision resolver with its emitted events.
pub open spec fn stage_motion(s: SimView) -> (SimView, TickEventsView) {
    stage_resolve(stage_wall_reset(stage_integrate(stage_controller(s))))
}

/// The reaction segment: the four brick trigger handlers in their fixed
/// order, then the ceiling and nails contact hazards.
pub open spec fn stage_reactions(s: SimView, ev: TickEventsView) -> SimView {
    stage_nails(stage_ceiling(stage_conveyor(stage_fake(stage_normal(stage_spring(s, ev), ev), ev), ev)))
}

/// The status segment: movement derivation, animation selection, and
/// every countdown timer of players and bricks.
pub open spec fn stage_statuses(s: SimView) -> SimView {
    stage_spring_end(
        stage_fake_end(
            stage_fake_delay(
                stage_ceiling_timer(stage_jumping(stage_damaging(stage_animate(stage_movement(s))))),
            ),
        ),
    )
}

/// The closing segment: the out-of-bounds fallback, the death check with
/// its notifications, and scoring.
pub open spec fn stage_finish(s: SimView) -> (SimView, Seq<PlayerEnterDeadEvent>) {
    let d = stage_dead(stage_out_window(s));
    (stage_score(d.0), d.1)
}

/// The state and events one tick makes of a state whose steering inputs
/// are already written: the fixed pipeline, segment by segment.
pub open spec fn tick_spec(s: SimView) -> (SimView, TickEventsView) {
    let m = stage_motion(s);
    let f = stage_finish(stage_statuses(stage_reactions(m.0, m.1)));
    (f.0, TickEventsView { player_enter_dead: f.1, ..m.1 })
}

/// The normal-brick queue changes no player's position, identity,
/// handle or death state, and leaves a dead player entirely unchanged.
proof fn lemma_normal_triggers_frame(
    players: Seq<PlayerView>,
    evs: Seq<crate::events::NormalBrickTriggerEnterEvent>,
)
    ensures
        ({
            let r = apply_normal_triggers(players, evs);
            &&& r.len() == players.len()
            &&& forall|i: int|
                0 <= i < players.len() ==> (#[trigger] r[i]).px == players[i].px && r[i].py
                    == players[i].py && r[i].id == players[i].id && r[i].handle
                    == players[i].handle && r[i].dead == players[i].dead && r[i].lc_ids
                    == players[i].lc_ids
            &&& forall|i: int|
                0 <= i < players.len() && (#[trigger] players[i]).dead ==> r[i] == players[i]
        }),
    decreases evs.len(),
{
    if evs.len() > 0 {
        lemma_normal_triggers_frame(players, evs.drop_last());
        let rp = apply_normal_triggers(players, evs.drop_last());
        let e = evs.last();
        if e.0.collision is Top {
            crate::state::lemma_find_player(rp, e.0.other);
        }
    }
}

/// The spring-brick queue changes no player's position, identity,
/// handle or death state, leaves dead players unchanged, and changes no
/// brick's position or identity.
proof fn lemma_spring_triggers_frame(
    players: Seq<PlayerView>,
    bricks: Seq<Brick>,
    evs: Seq<crate::events::SpringBrickTriggerEnterEvent>,
)
    ensures
        ({
            let r = apply_spring_triggers(players, bricks, evs);
            &&& r.0.len() == players.len()
            &&& r.1.len() == bricks.len()
            &&& forall|i: int|
                0 <= i < players.len() ==> (#[trigger] r.0[i]).px == players[i].px && r.0[i].py
                    == players[i].py && r.0[i].id == players[i].id && r.0[i].handle
                    == players[i].handle && r.0[i].dead == players[i].dead && r.0[i].lc_ids
                    == players[i].lc_ids
            &&& forall|i: int|
                0 <= i < players.len() && (#[trigger] players[i]).dead ==> r.0[i] == players[i]
            &&& forall|i: int|
                0 <= i < bricks.len() ==> (#[trigger] r.1[i]).pos == bricks[i].pos && r.1[i].id
                    == bricks[i].id
        }),
    decreases evs.len(),
{
    if evs.len() > 0 {
        lemma_spring_triggers_frame(players, bricks, evs.drop_last());
        let rp = apply_spring_triggers(players, bricks, evs.drop_last());
        let e = evs.last();
        if e.0.collision is Top {
            crate::state::lemma_find_brick(rp.1, e.0.myself);
            crate::state::lemma_find_player(rp.0, e.0.other);
        }
    }
}

/// The fake-brick queue changes no brick's position or identity.
proof fn lemma_fake_triggers_frame(
    bricks: Seq<Brick>,
    evs: Seq<crate::events::FakeBrickTriggerEnterEvent>,
)
    ensures
        ({
            let r = apply_fake_triggers(bricks, evs);
            &&& r.len() == bricks.len()
            &&& forall|i: int|
                0 <= i < bricks.len() ==> (#[trigger] r[i]).pos == bricks[i].pos && r[i].id
                    == bricks[i].id
        }),
    decreases evs.len(),
{
    if evs.len() > 0 {
        lemma_fake_triggers_frame(bricks, evs.drop_last());
        let rp = apply_fake_triggers(bricks, evs.drop_last());
        let e = evs.last();
        if e.0.collision is Top {
            crate::state::lemma_find_brick(rp, e.0.myself);
        }
    }
}

/// No death notification is emitted for a handle all of whose players
/// already carry the dead state: a transition is notified exactly once.
pub proof fn lemma_dead_events_only_transitions(players: Seq<PlayerView>, h: u32)
    requires
        forall|j: int|
            0 <= j < players.len() && (#[trigger] players[j]).handle == h ==> players[j].dead,
    ensures
        forall|e: int|
            0 <= e < dead_events(players).len() ==> (#[trigger] dead_events(players)[e]).handle
                != h,
    decreases players.len(),
{
    if players.len() > 0 {
        let pre = players.drop_last();
        assert(forall|j: int| 0 <= j < pre.len() ==> #[trigger] pre[j] == players[j]);
        lemma_dead_events_only_transitions(pre, h);
        let p = players.last();
        if !p.dead && p.health_value <= 0 {
            assert(players[players.len() - 1] == p);
            assert(p.handle != h);
            assert forall|e: int| 0 <= e < dead_events(players).len() implies (
            #[trigger] dead_events(players)[e]).handle != h by {
                if e < dead_events(pre).len() {
                    assert(dead_events(players)[e] == dead_events(pre)[e]);
                } else {
                    assert(dead_events(players)[e] == (PlayerEnterDeadEvent { handle: p.handle }));
                }
            }
        }
    }
}

/// Whether every player bearing this handle already carries the dead
/// state.
pub open spec fn handle_dead(players: Seq<PlayerView>, h: u32) -> bool {
    forall|j: int|
        0 <= j < players.len() && (#[trigger] players[j]).handle == h ==> players[j].dead
}

/// The death state is terminal and notified exactly once: when every
/// player of a handle is already dead before a tick, they are all still
/// dead after it, and the tick emits no further death notification for
/// that handle.
pub proof fn lemma_dead_stays_dead(s: SimView, h: u32)
    requires
        handle_dead(s.players, h),
    ensures
        handle_dead(tick_spec(s).0.players, h),
        forall|e: int|
            0 <= e < tick_spec(s).1.player_enter_dead.len() ==> (
            #[trigger] tick_spec(s).1.player_enter_dead[e]).handle != h,
{
    let s1 = stage_controller(s);
    let s2 = stage_integrate(s1);
    let s3 = stage_wall_reset(s2);
    let r = stage_resolve(s3);
    let s4 = r.0;
    let ev = r.1;
    assert(handle_dead(s4.players, h));
    let s5 = stage_spring(s4, ev);
    lemma_spring_triggers_frame(s4.players, s4.bricks, ev.spring_triggers);
    assert(handle_dead(s5.players, h));
    let s6 = stage_normal(s5, ev);
    lemma_normal_triggers_frame(s5.players, ev.normal_triggers);
    assert(handle_dead(s6.players, h));
    let s7 = stage_fake(s6, ev);
    let s8 = stage_conveyor(s7, ev);
    assert(handle_dead(s8.players, h));
    let s9 = stage_ceiling(s8);
    let s10 = stage_nails(s9);
    let s11 = stage_movement(s10);
    let s12 = stage_animate(s11);
    let s13 = stage_damaging(s12);
    let s14 = stage_jumping(s13);
    let s15 = stage_ceiling_timer(s14);
    let s16 = stage_fake_delay(s15);
    let s17 = stage_fake_end(s16);
    let s18 = stage_spring_end(s17);
    assert(handle_dead(s18.players, h));
    let s19 = stage_out_window(s18);
    assert(handle_dead(s19.players, h));
    lemma_dead_events_only_transitions(s19.players, h);
    let d = stage_dead(s19);
    assert(handle_dead(d.0.players, h));
    let s21 = stage_score(d.0);
    assert(handle_dead(s21.players, h));
}

/// The death state of one player is terminal: with pairwise distinct
/// handles — as every session spawned through `spawn_players` has — a
/// player dead before a tick is still dead, at its index, after the
/// tick, and the tick emits no death notification bearing its handle.
pub proof fn lemma_dead_index_stays_dead(s: SimView, i: int)
    requires
        0 <= i < s.players.len(),
        s.players[i].dead,
        forall|a: int, b: int|
            0 <= a < b < s.players.len() ==> (#[trigger] s.players[a]).handle != (
            #[trigger] s.players[b]).handle,
    ensures
        tick_spec(s).0.players.len() == s.players.len(),
        tick_spec(s).0.players[i].dead,
        tick_spec(s).0.players[i].handle == s.players[i].handle,
        forall|e: int|
            0 <= e < tick_spec(s).1.player_enter_dead.len() ==> (
            #[trigger] tick_spec(s).1.player_enter_dead[e]).handle != s.players[i].handle,
{
    let h = s.players[i].handle;
    assert forall|j: int| 0 <= j < s.players.len() && (#[trigger] s.players[j]).handle == h
        implies s.players[j].dead by {
        if j < i {
            assert(s.players[j].handle != s.players[i].handle);
        } else if i < j {
            assert(s.players[i].handle != s.players[j].handle);
        }
    }
    lemma_dead_stays_dead(s, h);
    let s1 = stage_controller(s);
    let s2 = stage_integrate(s1);
    let s3 = stage_wall_reset(s2);
    let r = stage_resolve(s3);
    let s4 = r.0;
    let ev = r.1;
    assert(s4.players[i].handle == h && s4.players[i].dead);
    let s5 = stage_spring(s4, ev);
    lemma_spring_triggers_frame(s4.players, s4.bricks, ev.spring_triggers);
    let s6 = stage_normal(s5, ev);
    lemma_normal_triggers_frame(s5.players, ev.normal_triggers);
    assert(s6.players[i].handle == h && s6.players[i].dead);
    let s7 = stage_fake(s6, ev);
    let s8 = stage_conveyor(s7, ev);
    assert(s8.players[i].handle == h && s8.players[i].dead);
    let s9 = stage_ceiling(s8);
    let s10 = stage_nails(s9);
    let s11 = stage_movement(s10);
    let s12 = stage_animate(s11);
    let s13 = stage_damaging(s12);
    let s14 = stage_jumping(s13);
    let s15 = stage_ceiling_timer(s14);
    let s16 = stage_fake_delay(s15);
    let s17 = stage_fake_end(s16);
    let s18 = stage_spring_end(s17);
    assert(s18.players[i].handle == h && s18.players[i].dead);
    let s19 = stage_out_window(s18);
    let d = stage_dead(s19);
    assert(d.0.players[i].handle == h && d.0.players[i].dead);
    let s21 = stage_score(d.0);
    assert(s21.players[i].handle == h && s21.players[i].dead);
}

/// After a whole tick, a scanned player's contact list is exactly the
/// set of bricks whose active collider overlapped the player's box at
/// this tick's collision scan — no stale entries, no omissions.  The
/// scan-time view is the state after this tick's movement, where the
/// resolver rebuilt the list; no later phase touches it.
pub proof fn lemma_tick_last_collisions_exact(s: SimView, i: int, j: int)
    requires
        0 <= i < s.players.len(),
        0 <= j < s.bricks.len(),
        !s.players[i].dead,
        s.players[i].ceiling_hurt is Clear,
        !(s.players[i].jump is Jumping),
        forall|a: int, b: int|
            0 <= a < b < s.bricks.len() ==> (#[trigger] s.bricks[a]).id != (
            #[trigger] s.bricks[b]).id,
    ensures
        ({
            let s3 = stage_wall_reset(stage_integrate(stage_controller(s)));
            let pv = s3.players[i];
            tick_spec(s).0.players[i].lc_ids.contains(s3.bricks[j].id) <==> (
            s3.bricks[j].collider_active() && crate::geom::overlap_spec(
                crate::physics::player_box(pv),
                crate::physics::brick_box(s3.bricks[j]),
            ) is Some)
        }),
{
    let s1 = stage_controller(s);
    let s2 = stage_integrate(s1);
    let s3 = stage_wall_reset(s2);
    let pv = s3.players[i];
    assert(pv == integrate_player(controller_step(s.players[i])));
    assert(!resolver_skips(pv) && !(pv.jump is Jumping));
    assert forall|a: int, b: int|
        0 <= a < b < s3.bricks.len() implies (#[trigger] s3.bricks[a]).id != (
    #[trigger] s3.bricks[b]).id by {
        assert(s3.bricks[a].id == s.bricks[a].id);
        assert(s3.bricks[b].id == s.bricks[b].id);
    }
    crate::physics::lemma_last_collisions_exact(pv, s3.bricks, j);
    let r = stage_resolve(s3);
    let s4 = r.0;
    let ev = r.1;
    assert(s4.players[i].lc_ids == resolve_player(pv, s3.bricks).lc_ids);
    let s5 = stage_spring(s4, ev);
    lemma_spring_triggers_frame(s4.players, s4.bricks, ev.spring_triggers);
    let s6 = stage_normal(s5, ev);
    lemma_normal_triggers_frame(s5.players, ev.normal_triggers);
    let s7 = stage_fake(s6, ev);
    let s8 = stage_conveyor(s7, ev);
    assert(s8.players[i].lc_ids == s6.players[i].lc_ids);
    let s9 = stage_ceiling(s8);
    let s10 = stage_nails(s9);
    let s11 = stage_movement(s10);
    let s12 = stage_animate(s11);
    let s13 = stage_damaging(s12);
    let s14 = stage_jumping(s13);
    let s15 = stage_ceiling_timer(s14);
    let s16 = stage_fake_delay(s15);
    let s17 = stage_fake_end(s16);
    let s18 = stage_spring_end(s17);
    assert(s18.players[i].lc_ids == s10.players[i].lc_ids);
    let s19 = stage_out_window(s18);
    let d = stage_dead(s19);
    let s21 = stage_score(d.0);
    assert(s21.players[i].lc_ids == s19.players[i].lc_ids);
    assert(tick_spec(s).0.players[i].lc_ids == s4.players[i].lc_ids);
}

/// The motion segment of one tick: controller, integration, wall
/// recycling and the collision resolver, returning the tick's event
/// queue.
#[verifier::loop_isolation(false)]
#[verifier::rlimit(60)]
fn tick_motion(state: &mut GameState) -> (ev: TickEvents)
    requires
        old(state).wf(),
        old(state).positions_within(TICK_POS_LIMIT as int),
    ensures
        final(state).wf(),
        sim_view(*final(state)) == stage_motion(sim_view(*old(state))).0,
        ev@ == stage_motion(sim_view(*old(state))).1,
        final(state).positions_within(POS_LIMIT as int),
        old(state).positions_within((TICK_POS_LIMIT - TICK_DRIFT_LIMIT) as int)
            ==> final(state).positions_within(TICK_POS_LIMIT as int),
        final(state).next_entity == old(state).next_entity,
{
    let ghost v0 = sim_view(*old(state));
    let ghost lim1: int = TICK_POS_LIMIT as int + SIZE_LIMIT as int;
    let ghost head: int = TICK_POS_LIMIT as int - TICK_DRIFT_LIMIT as int;

    crate::status::player_controller_system(state);
    let ghost v1 = stage_controller(v0);
    proof {
        assert(sim_view(*state).players =~= v1.players);
        assert(sim_view(*state) =~= v1);
        assert forall|i: int| 0 <= i < state.players@.len() implies v2_within(
            (#[trigger] state.players@[i]).pos,
            TICK_POS_LIMIT as int,
        ) by {
            assert(state.players@[i]@ == controller_step(old(state).players@[i]@));
            assert(v2_within(old(state).players@[i].pos, TICK_POS_LIMIT as int));
        }
        assert(state.positions_within(TICK_POS_LIMIT as int));
    }

    velocity_system_stage(state, Ghost(v1));
    let ghost v2 = stage_integrate(v1);
    proof {
        if old(state).positions_within(head) {
            assert forall|i: int| 0 <= i < state.players@.len() implies v2_within(
                (#[trigger] state.players@[i]).pos,
                head + SIZE_LIMIT as int,
            ) by {
                assert(sim_view(*state).players == v2.players);
                assert(state.players@.len() == v2.players.len());
                assert(v0.players.len() == old(state).players@.len());
                assert(i < v0.players.len() && i < v1.players.len() && i < v2.players.len());
                assert(state.players@[i]@ == v2.players[i]);
                assert(v2.players[i] == integrate_player(v1.players[i]));
                assert(v1.players[i] == controller_step(v0.players[i]));
                assert(v2_within(old(state).players@[i].pos, head));
                assert(state.players@[i].wf());
            }
            assert forall|i: int| 0 <= i < state.bricks@.len() implies v2_within(
                (#[trigger] state.bricks@[i]).pos,
                head + SIZE_LIMIT as int,
            ) by {
                assert(sim_view(*state).bricks == v2.bricks);
                assert(state.bricks@.len() == v2.bricks.len());
                assert(v0.bricks.len() == old(state).bricks@.len());
                assert(i < v0.bricks.len() && i < v1.bricks.len() && i < v2.bricks.len());
                assert(state.bricks@[i] == v2.bricks[i]);
                assert(v2.bricks[i] == integrate_brick(v1.bricks[i]));
                assert(v1.bricks[i] == v0.bricks[i]);
                assert(v2_within(old(state).bricks@[i].pos, head));
                assert(old(state).bricks@[i].wf());
            }
        }
    }

    crate::physics::wall_reset_position_system(state);
    let ghost v3 = stage_wall_reset(v2);
    proof {
        assert(sim_view(*state).bricks =~= v3.bricks);
        assert(sim_view(*state) =~= v3);
        assert forall|i: int| 0 <= i < state.bricks@.len() implies v2_within(
            (#[trigger] state.bricks@[i]).pos,
            lim1,
        ) by {
            assert(state.bricks@[i] == wall_reset_brick(v2.bricks[i]));
            assert(old(state).bricks@[i].wf());
            assert(old(state).bricks@[i].kind == v2.bricks[i].kind);
        }
        assert(state.positions_within(POS_LIMIT as int));
        if old(state).positions_within(head) {
            assert forall|i: int| 0 <= i < state.bricks@.len() implies v2_within(
                (#[trigger] state.bricks@[i]).pos,
                head + SIZE_LIMIT as int,
            ) by {
                assert(state.bricks@[i] == wall_reset_brick(v2.bricks[i]));
                assert(old(state).bricks@[i].wf());
                assert(old(state).bricks@[i].kind == v2.bricks[i].kind);
                assert(v2_within(v2.bricks[i].pos, head + SIZE_LIMIT as int));
            }
        }
    }

    let ev = crate::physics::player_collision_system(state);
    let ghost r4 = stage_resolve(v3);
    let ghost v4 = r4.0;
    proof {
        assert(sim_view(*state).players =~= v4.players);
        assert(sim_view(*state) =~= v4);
        assert(ev@ == r4.1);
        assert forall|i: int| 0 <= i < state.players@.len() implies v2_within(
            (#[trigger] state.players@[i]).pos,
            POS_LIMIT as int,
        ) by {
            let pv = v3.players[i];
            assert(state.players@[i]@ == resolve_player(pv, v3.bricks));
            if !resolver_skips(pv) && !(pv.jump is Jumping) {
                assert(old(state).players@[i].wf());
                crate::physics::lemma_scan_bounds(
                    crate::physics::init_scan(pv),
                    crate::physics::player_box(pv),
                    v3.bricks,
                    pv.lc_ids,
                    pv.id,
                    lim1,
                );
            }
        }
        assert(state.positions_within(POS_LIMIT as int));
        if old(state).positions_within(head) {
            assert forall|i: int| 0 <= i < state.players@.len() implies v2_within(
                (#[trigger] state.players@[i]).pos,
                TICK_POS_LIMIT as int,
            ) by {
                let pv = v3.players[i];
                assert(state.players@[i]@ == resolve_player(pv, v3.bricks));
                assert(v2_within(
                    Vec2i { x: (pv.px) as i64, y: (pv.py) as i64 },
                    head + SIZE_LIMIT as int,
                ));
                if !resolver_skips(pv) && !(pv.jump is Jumping) {
                    assert(old(state).players@[i].wf());
                    crate::physics::lemma_scan_bounds(
                        crate::physics::init_scan(pv),
                        crate::physics::player_box(pv),
                        v3.bricks,
                        pv.lc_ids,
                        pv.id,
                        head + SIZE_LIMIT as int,
                    );
                }
            }
            assert forall|i: int| 0 <= i < state.bricks@.len() implies v2_within(
                (#[trigger] state.bricks@[i]).pos,
                TICK_POS_LIMIT as int,
            ) by {
                assert(v2_within(state.bricks@[i].pos, head + SIZE_LIMIT as int));
            }
            assert(state.positions_within(TICK_POS_LIMIT as int));
        }
    }
    ev
}

/// The reaction segment of one tick: the four brick trigger handlers in
/// their fixed order, then the ceiling and nails hazards.
#[verifier::loop_isolation(false)]
#[verifier::rlimit(60)]
fn tick_reactions(state: &mut GameState, ev: &TickEvents)
    requires
        old(state).wf(),
        old(state).positions_within(POS_LIMIT as int),
    ensures
        final(state).wf(),
        sim_view(*final(state)) == stage_reactions(sim_view(*old(state)), ev@),
        final(state).positions_within(POS_LIMIT as int),
        final(state).players@.len() == old(state).players@.len(),
        final(state).bricks@.len() == old(state).bricks@.len(),
        forall|i: int|
            0 <= i < old(state).players@.len() ==> (#[trigger] final(state).players@[i]).pos
                == old(state).players@[i].pos,
        forall|i: int|
            0 <= i < old(state).bricks@.len() ==> (#[trigger] final(state).bricks@[i]).pos == old(
                state,
            ).bricks@[i].pos,
        final(state).ceiling == old(state).ceiling,
        final(state).next_entity == old(state).next_entity,
{
    let ghost v4 = sim_view(*old(state));
    let ghost ev4 = ev@;

    crate::triggers::spring_brick_trigger_enter_system(state, ev);
    let ghost v5 = stage_spring(v4, ev4);
    proof {
        lemma_spring_triggers_frame(v4.players, v4.bricks, ev4.spring_triggers);
        assert(sim_view(*state).players =~= v5.players);
        assert(sim_view(*state).bricks =~= v5.bricks);
        assert(sim_view(*state) =~= v5);
    }

    crate::triggers::normal_brick_trigger_enter_system(state, ev);
    let ghost v6 = stage_normal(v5, ev4);
    proof {
        lemma_normal_triggers_frame(v5.players, ev4.normal_triggers);
        assert(sim_view(*state).players =~= v6.players);
        assert(sim_view(*state) =~= v6);
    }

    crate::triggers::fake_brick_trigger_enter_system(state, ev);
    let ghost v7 = stage_fake(v6, ev4);
    proof {
        lemma_fake_triggers_frame(v6.bricks, ev4.fake_triggers);
        assert(sim_view(*state).bricks =~= v7.bricks);
        assert(sim_view(*state) =~= v7);
    }

    crate::triggers::player_on_conveyor_system(state, ev);
    let ghost v8 = stage_conveyor(v7, ev4);
    proof {
        assert(sim_view(*state).players =~= v8.players);
        assert(sim_view(*state) =~= v8);
        lemma_spring_triggers_frame(v4.players, v4.bricks, ev4.spring_triggers);
        lemma_normal_triggers_frame(v5.players, ev4.normal_triggers);
        lemma_fake_triggers_frame(v6.bricks, ev4.fake_triggers);
        assert forall|i: int| 0 <= i < state.players@.len() implies v2_within(
            (#[trigger] state.players@[i]).pos,
            POS_LIMIT as int,
        ) by {
            assert(state.players@[i]@ == conveyor_step_player(
                v7.players[i],
                ev4.collisions,
                v7.bricks,
            ));
            assert(v2_within(old(state).players@[i].pos, POS_LIMIT as int));
        }
        assert forall|i: int| 0 <= i < state.bricks@.len() implies v2_within(
            (#[trigger] state.bricks@[i]).pos,
            POS_LIMIT as int,
        ) by {
            assert(v2_within(old(state).bricks@[i].pos, POS_LIMIT as int));
        }
        assert(state.positions_within(POS_LIMIT as int));
    }

    crate::hazards::player_ceiling_hitbox_system(state);
    let ghost v9 = stage_ceiling(v8);
    proof {
        assert(sim_view(*state).players =~= v9.players);
        assert(sim_view(*state) =~= v9);
        assert forall|i: int| 0 <= i < state.players@.len() implies v2_within(
            (#[trigger] state.players@[i]).pos,
            POS_LIMIT as int,
        ) by {
            assert(state.players@[i]@ == ceiling_step_player(v8.players[i], v8.ceiling));
        }
        assert(state.positions_within(POS_LIMIT as int));
    }

    crate::hazards::player_nails_hitbox_system(state);
    let ghost v10 = stage_nails(v9);
    proof {
        assert(sim_view(*state).players =~= v10.players);
        assert(sim_view(*state) =~= v10);
        assert forall|i: int| 0 <= i < state.players@.len() implies v2_within(
            (#[trigger] state.players@[i]).pos,
            POS_LIMIT as int,
        ) by {
            assert(state.players@[i]@ == nails_step_player(v9.players[i], v9.bricks));
        }
        assert(state.positions_within(POS_LIMIT as int));
        lemma_spring_triggers_frame(v4.players, v4.bricks, ev4.spring_triggers);
        lemma_normal_triggers_frame(v5.players, ev4.normal_triggers);
        lemma_fake_triggers_frame(v6.bricks, ev4.fake_triggers);
        assert forall|i: int| 0 <= i < old(state).players@.len() implies (
        #[trigger] state.players@[i]).pos == old(state).players@[i].pos by {
            assert(state.players@[i]@ == v10.players[i]);
            assert(v10.players[i] == nails_step_player(v9.players[i], v9.bricks));
            assert(v9.players[i] == ceiling_step_player(v8.players[i], v8.ceiling));
            assert(v8.players[i] == conveyor_step_player(v7.players[i], ev4.collisions, v7.bricks));
            assert(v7.players[i] == v6.players[i]);
            assert(old(state).players@[i]@ == v4.players[i]);
            assert(state.players@[i].pos.x == old(state).players@[i].pos.x);
            assert(state.players@[i].pos.y == old(state).players@[i].pos.y);
        }
        assert forall|i: int| 0 <= i < old(state).bricks@.len() implies (
        #[trigger] state.bricks@[i]).pos == old(state).bricks@[i].pos by {
            assert(state.bricks@[i] == v10.bricks[i]);
            assert(v10.bricks[i] == v7.bricks[i]);
        }
    }
}

/// The status segment of one tick: movement derivation, animation
/// selection, and every countdown timer.
#[verifier::loop_isolation(false)]
#[verifier::rlimit(60)]
fn tick_statuses(state: &mut GameState)
    requires
        old(state).wf(),
        old(state).positions_within(POS_LIMIT as int),
    ensures
        final(state).wf(),
        sim_view(*final(state)) == stage_statuses(sim_view(*old(state))),
        final(state).positions_within(POS_LIMIT as int),
        final(state).players@.len() == old(state).players@.len(),
        final(state).bricks@.len() == old(state).bricks@.len(),
        forall|i: int|
            0 <= i < old(state).players@.len() ==> (#[trigger] final(state).players@[i]).pos
                == old(state).players@[i].pos,
        forall|i: int|
            0 <= i < old(state).bricks@.len() ==> (#[trigger] final(state).bricks@[i]).pos == old(
                state,
            ).bricks@[i].pos,
        final(state).ceiling == old(state).ceiling,
        final(state).next_entity == old(state).next_entity,
{
    let ghost v10 = sim_view(*old(state));

    crate::status::update_movement_system(state);
    let ghost v11 = stage_movement(v10);
    proof {
        assert(sim_view(*state).players =~= v11.players);
        assert(sim_view(*state) =~= v11);
    }

    crate::status::animate_player_system(state);
    let ghost v12 = stage_animate(v11);
    proof {
        assert(sim_view(*state).players =~= v12.players);
        assert(sim_view(*state) =~= v12);
    }

    crate::status::damaging_timer_system(state);
    let ghost v13 = stage_damaging(v12);
    proof {
        assert(sim_view(*state).players =~= v13.players);
        assert(sim_view(*state) =~= v13);
    }

    crate::status::jumping_timer_system(state);
    let ghost v14 = stage_jumping(v13);
    proof {
        assert(sim_view(*state).players =~= v14.players);
        assert(sim_view(*state) =~= v14);
    }

    crate::status::celling_hurting_player_system(state);
    let ghost v15 = stage_ceiling_timer(v14);
    proof {
        assert(sim_view(*state).players =~= v15.players);
        assert(sim_view(*state) =~= v15);
    }

    crate::status::fake_brick_flip_system(state);
    let ghost v16 = stage_fake_delay(v15);
    proof {
        assert(sim_view(*state).bricks =~= v16.bricks);
        assert(sim_view(*state) =~= v16);
    }

    crate::status::animate_fake_brick_system(state);
    let ghost v17 = stage_fake_end(v16);
    proof {
        assert(sim_view(*state).bricks =~= v17.bricks);
        assert(sim_view(*state) =~= v17);
    }

    crate::status::animate_spring_brick_system(state);
    let ghost v18 = stage_spring_end(v17);
    proof {
        assert(sim_view(*state).bricks =~= v18.bricks);
        assert(sim_view(*state) =~= v18);
        assert forall|i: int| 0 <= i < state.players@.len() implies v2_within(
            (#[trigger] state.players@[i]).pos,
            POS_LIMIT as int,
        ) by {
            assert(state.players@[i]@ == v18.players[i]);
            assert(v18.players[i].px == v10.players[i].px && v18.players[i].py
                == v10.players[i].py);
            assert(v2_within(old(state).players@[i].pos, POS_LIMIT as int));
        }
        assert forall|i: int| 0 <= i < state.bricks@.len() implies v2_within(
            (#[trigger] state.bricks@[i]).pos,
            POS_LIMIT as int,
        ) by {
            assert(v2_within(old(state).bricks@[i].pos, POS_LIMIT as int));
        }
        assert(state.positions_within(POS_LIMIT as int));
        assert forall|i: int| 0 <= i < old(state).players@.len() implies (
        #[trigger] state.players@[i]).pos == old(state).players@[i].pos by {
            assert(state.players@[i]@ == v18.players[i]);
            assert(v18.players[i].px == v10.players[i].px && v18.players[i].py
                == v10.players[i].py);
            assert(old(state).players@[i]@ == v10.players[i]);
            assert(state.players@[i].pos.x == old(state).players@[i].pos.x);
            assert(state.players@[i].pos.y == old(state).players@[i].pos.y);
        }
        assert forall|i: int| 0 <= i < old(state).bricks@.len() implies (
        #[trigger] state.bricks@[i]).pos == old(state).bricks@[i].pos by {
            assert(state.bricks@[i] == v18.bricks[i]);
            assert(v18.bricks[i].pos == v10.bricks[i].pos);
        }
    }
}

/// The closing segment of one tick: the out-of-bounds fallback, the
/// death check with its notifications, and scoring.
#[verifier::loop_isolation(false)]
#[verifier::rlimit(60)]
fn tick_finish(state: &mut GameState, ev: &mut TickEvents)
    requires
        old(state).wf(),
        old(state).positions_within(POS_LIMIT as int),
        old(state).scoreboard.score < u64::MAX,
    ensures
        final(state).wf(),
        sim_view(*final(state)) == stage_finish(sim_view(*old(state))).0,
        final(ev)@ == (TickEventsView {
            player_enter_dead: old(ev)@.player_enter_dead + stage_finish(
                sim_view(*old(state)),
            ).1,
            ..old(ev)@
        }),
        final(state).positions_within(POS_LIMIT as int),
        final(state).players@.len() == old(state).players@.len(),
        final(state).bricks@.len() == old(state).bricks@.len(),
        forall|i: int|
            0 <= i < old(state).players@.len() ==> (#[trigger] final(state).players@[i]).pos
                == old(state).players@[i].pos,
        forall|i: int|
            0 <= i < old(state).bricks@.len() ==> (#[trigger] final(state).bricks@[i]).pos == old(
                state,
            ).bricks@[i].pos,
        final(state).ceiling == old(state).ceiling,
        final(state).next_entity == old(state).next_entity,
{
    let ghost v18 = sim_view(*old(state));

    crate::status::player_out_window_die_system(state);
    let ghost v19 = stage_out_window(v18);
    proof {
        assert(sim_view(*state).players =~= v19.players);
        assert(sim_view(*state) =~= v19);
    }

    crate::status::enter_dead_system(state, ev);
    let ghost d20 = stage_dead(v19);
    let ghost v20 = d20.0;
    proof {
        assert(sim_view(*state).players =~= v20.players);
        assert(sim_view(*state) =~= v20);
    }

    crate::score::add_score(state);
    let ghost v21 = stage_score(v20);
    proof {
        assert(sim_view(*state).players =~= v21.players);
        assert(sim_view(*state) =~= v21);
        assert(ev@ =~= (TickEventsView {
            player_enter_dead: old(ev)@.player_enter_dead + stage_finish(v18).1,
            ..old(ev)@
        }));
        assert forall|i: int| 0 <= i < state.players@.len() implies v2_within(
            (#[trigger] state.players@[i]).pos,
            POS_LIMIT as int,
        ) by {
            assert(state.players@[i]@ == v21.players[i]);
            assert(v21.players[i].px == v18.players[i].px && v21.players[i].py
                == v18.players[i].py);
            assert(v2_within(old(state).players@[i].pos, POS_LIMIT as int));
        }
        assert(state.positions_within(POS_LIMIT as int));
        assert forall|i: int| 0 <= i < old(state).players@.len() implies (
        #[trigger] state.players@[i]).pos == old(state).players@[i].pos by {
            assert(state.players@[i]@ == v21.players[i]);
            assert(v21.players[i].px == v18.players[i].px && v21.players[i].py
                == v18.players[i].py);
            assert(old(state).players@[i]@ == v18.players[i]);
            assert(state.players@[i].pos.x == old(state).players@[i].pos.x);
            assert(state.players@[i].pos.y == old(state).players@[i].pos.y);
        }
        assert forall|i: int| 0 <= i < old(state).bricks@.len() implies (
        #[trigger] state.bricks@[i]).pos == old(state).bricks@[i].pos by {
            assert(state.bricks@[i] == v21.bricks[i]);
            assert(v21.bricks[i] == v18.bricks[i]);
        }
    }
}

/// One simulation tick over the whole state: inputs are already written;
/// the result is exactly `tick_spec` of the previous state's view, so a
/// tick is a pure function of state and inputs — the contract rollback
/// networking needs.  Positions must start within the start-of-tick
/// bound so this tick's drift and snapping stay within machine range;
/// a state with one tick's drift of headroom below that bound still
/// meets it afterwards, so ticks chain as long as the headroom lasts.
#[verifier::loop_isolation(false)]
pub fn tick(state: &mut GameState) -> (ev: TickEvents)
    requires
        old(state).wf(),
        old(state).positions_within(TICK_POS_LIMIT as int),
        old(state).scoreboard.score < u64::MAX,
    ensures
        final(state).wf(),
        sim_view(*final(state)) == tick_spec(sim_view(*old(state))).0,
        ev@ == tick_spec(sim_view(*old(state))).1,
        final(state).next_entity == old(state).next_entity,
        final(state).positions_within(POS_LIMIT as int),
        old(state).positions_within((TICK_POS_LIMIT - TICK_DRIFT_LIMIT) as int)
            ==> final(state).positions_within(TICK_POS_LIMIT as int),
{
    let ghost v0 = sim_view(*old(state));
    let mut ev = tick_motion(state);
    let ghost m = stage_motion(v0);
    let ghost s_m = *state;
    tick_reactions(state, &ev);
    let ghost vr = stage_reactions(m.0, m.1);
    let ghost s_r = *state;
    tick_statuses(state);
    let ghost vs = stage_statuses(vr);
    let ghost s_s = *state;
    proof {
        assert(state.scoreboard.score == v0.scoreboard.score);
    }
    tick_finish(state, &mut ev);
    proof {
        let s3 = stage_wall_reset(stage_integrate(stage_controller(v0)));
        crate::physics::lemma_resolver_events_no_dead(s3.players, s3.bricks);
        assert(m.1.player_enter_dead =~= Seq::<PlayerEnterDeadEvent>::empty());
        assert(m.1.player_enter_dead + stage_finish(vs).1 =~= stage_finish(vs).1);
        assert(ev@ =~= tick_spec(v0).1);
        assert(sim_view(*state) == tick_spec(v0).0);
        if old(state).positions_within((TICK_POS_LIMIT - TICK_DRIFT_LIMIT) as int) {
            assert(s_m.positions_within(TICK_POS_LIMIT as int));
            assert forall|i: int| 0 <= i < state.players@.len() implies v2_within(
                (#[trigger] state.players@[i]).pos,
                TICK_POS_LIMIT as int,
            ) by {
                assert(state.players@[i].pos == s_s.players@[i].pos);
                assert(s_s.players@[i].pos == s_r.players@[i].pos);
                assert(s_r.players@[i].pos == s_m.players@[i].pos);
                assert(v2_within(s_m.players@[i].pos, TICK_POS_LIMIT as int));
            }
            assert forall|i: int| 0 <= i < state.bricks@.len() implies v2_within(
                (#[trigger] state.bricks@[i]).pos,
                TICK_POS_LIMIT as int,
            ) by {
                assert(state.bricks@[i].pos == s_s.bricks@[i].pos);
                assert(s_s.bricks@[i].pos == s_r.bricks@[i].pos);
                assert(s_r.bricks@[i].pos == s_m.bricks@[i].pos);
                assert(v2_within(s_m.bricks@[i].pos, TICK_POS_LIMIT as int));
            }
            assert(state.ceiling == s_m.ceiling);
            assert(state.positions_within(TICK_POS_LIMIT as int));
        }
    }
    ev
}

/// Integration wrapped with its stage equality and the tight position
/// bound one tick's snapping relies on.
#[verifier::loop_isolation(false)]
fn velocity_system_stage(state: &mut GameState, v1: Ghost<SimView>)
    requires
        old(state).wf(),
        old(state).positions_within(TICK_POS_LIMIT as int),
        v1@ == sim_view(*old(state)),
    ensures
        final(state).wf(),
        final(state).positions_within((TICK_POS_LIMIT + SIZE_LIMIT) as int),
        sim_view(*final(state)) == stage_integrate(v1@),
        final(state).next_entity == old(state).next_entity,
        final(state).ceiling == old(state).ceiling,
        final(state).bounds == old(state).bounds,
{
    proof {
        assert(state.positions_within((POS_LIMIT - SIZE_LIMIT) as int)) by {
            assert forall|i: int| 0 <= i < state.players@.len() implies v2_within(
                (#[trigger] state.players@[i]).pos,
                (POS_LIMIT - SIZE_LIMIT) as int,
            ) by {
                assert(v2_within(state.players@[i].pos, TICK_POS_LIMIT as int));
            }
            assert forall|i: int| 0 <= i < state.bricks@.len() implies v2_within(
                (#[trigger] state.bricks@[i]).pos,
                (POS_LIMIT - SIZE_LIMIT) as int,
            ) by {
                assert(v2_within(state.bricks@[i].pos, TICK_POS_LIMIT as int));
            }
        }
    }
    crate::physics::velocity_system(state);
    proof {
        assert(sim_view(*state).players =~= stage_integrate(v1@).players);
        assert(sim_view(*state).bricks =~= stage_integrate(v1@).bricks);
        assert(sim_view(*state) =~= stage_integrate(v1@));
        assert forall|i: int| 0 <= i < state.players@.len() implies v2_within(
            (#[trigger] state.players@[i]).pos,
            (TICK_POS_LIMIT + SIZE_LIMIT) as int,
        ) by {
            assert(state.players@[i]@ == integrate_player(old(state).players@[i]@));
            assert(old(state).players@[i].wf());
            assert(v2_within(old(state).players@[i].pos, TICK_POS_LIMIT as int));
        }
        assert forall|i: int| 0 <= i < state.bricks@.len() implies v2_within(
            (#[trigger] state.bricks@[i]).pos,
            (TICK_POS_LIMIT + SIZE_LIMIT) as int,
        ) by {
            assert(state.bricks@[i] == integrate_brick(old(state).bricks@[i]));
            assert(old(state).bricks@[i].wf());
            assert(v2_within(old(state).bricks@[i].pos, TICK_POS_LIMIT as int));
        }
        assert(state.positions_within((TICK_POS_LIMIT + SIZE_LIMIT) as int));
    }
}

} // verus!
