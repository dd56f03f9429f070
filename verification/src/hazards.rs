//! Contact hazards checked every tick, not edge-triggered: the spike
//! hitboxes of nails bricks and the ceiling strip.

use vstd::prelude::*;
use crate::brick::{Brick, BrickKind, Ceiling};
use crate::constants::{CEILING_HURT_TICKS, CEILING_KNOCKBACK_SPEED, DAMAGING_TICKS, POS_LIMIT};
use crate::geom::{gbox_of, overlap, overlap_spec, GBox, Vec2i};
use crate::health::health_clamp;
use crate::physics::player_box;
use crate::player::{CeilingHurtState, DamageState, PlayerView};
use crate::state::GameState;

verus! {

/// The world box of a nails brick's spike hitbox.
pub open spec fn nails_hitbox_box(b: Brick, hb: crate::brick::NailsBrickHitbox) -> GBox {
    GBox {
        x: b.pos.x + hb.0.center.x,
        y: b.pos.y + hb.0.center.y,
        w: hb.0.size.x as int,
        h: hb.0.size.y as int,
    }
}

/// Health left and whether any spike was touched, after testing the
/// player's box against each nails hitbox in brick order; every touch
/// costs one point, clamped at zero.
pub open spec fn nails_scan(h: int, hmax: int, abox: GBox, bricks: Seq<Brick>) -> (int, bool)
    decreases bricks.len(),
{
    if bricks.len() == 0 {
        (h, false)
    } else {
        let pre = nails_scan(h, hmax, abox, bricks.drop_last());
        match bricks.last().kind {
            BrickKind::Nails { hitbox } => if overlap_spec(
                abox,
                nails_hitbox_box(bricks.last(), hitbox),
            ) is Some {
                (health_clamp(hmax, pre.0 - 1), true)
            } else {
                pre
            },
            _ => pre,
        }
    }
}

/// A scan that touched no spike leaves the health untouched.
pub proof fn lemma_nails_scan_no_hit(h: int, hmax: int, abox: GBox, bricks: Seq<Brick>)
    ensures
        !nails_scan(h, hmax, abox, bricks).1 ==> nails_scan(h, hmax, abox, bricks).0 == h,
    decreases bricks.len(),
{
    if bricks.len() > 0 {
        lemma_nails_scan_no_hit(h, hmax, abox, bricks.drop_last());
    }
}

/// What the nails pass makes of one player: a player that is not dead,
/// not already in damage cooldown and whose collider is present loses
/// one point per touched spike hitbox and enters the damage cooldown if
/// any was touched.
pub open spec fn nails_step_player(p: PlayerView, bricks: Seq<Brick>) -> PlayerView {
    if p.dead || p.damage is Damaging || !(p.ceiling_hurt is Clear) {
        p
    } else {
        let s = nails_scan(p.health_value, p.health_max, player_box(p), bricks);
        if s.1 {
            PlayerView {
                health_value: s.0,
                damage: DamageState::Damaging { ticks_left: DAMAGING_TICKS },
                ..p
            }
        } else {
            p
        }
    }
}

/// Damages each vulnerable player touching a spike hitbox and puts it
/// into the damage cooldown.
#[verifier::loop_isolation(false)]
pub fn player_nails_hitbox_system(state: &mut GameState)
    requires
        old(state).wf(),
        old(state).positions_within(POS_LIMIT as int),
    ensures
        final(state).wf(),
        final(state).players@.len() == old(state).players@.len(),
        forall|i: int|
            0 <= i < old(state).players@.len() ==> (#[trigger] final(state).players@[i])@
                == nails_step_player(old(state).players@[i]@, old(state).bricks@),
        final(state).bricks == old(state).bricks,
        final(state).ceiling == old(state).ceiling,
        final(state).scoreboard == old(state).scoreboard,
        final(state).score_timer == old(state).score_timer,
        final(state).bounds == old(state).bounds,
        final(state).next_entity == old(state).next_entity,
{
    let ghost players0 = old(state).players@;
    let ghost bricks0 = old(state).bricks@;
    let np = state.players.len();
    let mut i: usize = 0;
    while i < np
        invariant
            i <= np,
            np == players0.len(),
            state.players@.len() == players0.len(),
            state.wf(),
            forall|k: int|
                0 <= k < i ==> (#[trigger] state.players@[k])@ == nails_step_player(
                    players0[k]@,
                    bricks0,
                ),
            forall|k: int| i <= k < np ==> state.players@[k] == players0[k],
            state.bricks == old(state).bricks,
            state.bricks@ == bricks0,
            state.ceiling == old(state).ceiling,
            state.scoreboard == old(state).scoreboard,
            state.score_timer == old(state).score_timer,
            state.bounds == old(state).bounds,
            state.next_entity == old(state).next_entity,
        decreases np - i,
    {
        let ghost pv = players0[i as int]@;
        let vulnerable = !state.players[i].dead && matches!(
            state.players[i].damage,
            DamageState::Clear,
        ) && matches!(state.players[i].ceiling_hurt, CeilingHurtState::Clear);
        if vulnerable {
            let px0 = state.players[i].pos.x;
            let py0 = state.players[i].pos.y;
            let a_col = state.players[i].collider;
            let a_tx = px0 + a_col.center.x;
            let a_ty = py0 + a_col.center.y;
            let ghost abox = player_box(pv);
            let ghost h0 = pv.health_value;
            let ghost hmax = pv.health_max;
            let mut any = false;
            let nb = state.bricks.len();
            let mut j: usize = 0;
            while j < nb
                invariant
                    j <= nb,
                    i < np,
                    np == players0.len(),
                    state.players@.len() == players0.len(),
                    nb == bricks0.len(),
                    state.bricks == old(state).bricks,
                    state.bricks@ == bricks0,
                    state.ceiling == old(state).ceiling,
                    state.scoreboard == old(state).scoreboard,
                    state.score_timer == old(state).score_timer,
                    state.bounds == old(state).bounds,
                    state.next_entity == old(state).next_entity,
                    forall|k: int| i < k < np ==> state.players@[k] == players0[k],
                    forall|k: int|
                        0 <= k < i ==> (#[trigger] state.players@[k])@ == nails_step_player(
                            players0[k]@,
                            bricks0,
                        ),
                    a_tx as int == abox.x,
                    a_ty as int == abox.y,
                    a_col == pv.collider,
                    abox == player_box(pv),
                    ({
                        let s = nails_scan(h0, hmax, abox, bricks0.take(j as int));
                        &&& state.players@[i as int]@ == (PlayerView { health_value: s.0, ..pv })
                        &&& any == s.1
                        &&& s.0 >= 0
                    }),
                    state.wf(),
                decreases nb - j,
            {
                proof {
                    assert(bricks0.take(j + 1).drop_last() =~= bricks0.take(j as int));
                    assert(bricks0.take(j + 1).last() == bricks0[j as int]);
                    assert(old(state).bricks@[j as int].wf());
                }
                let ghost s_pre = nails_scan(h0, hmax, abox, bricks0.take(j as int));
                proof {
                    assert(old(state).players@[i as int].wf());
                }
                let b_pos = state.bricks[j].pos;
                if let BrickKind::Nails { hitbox } = state.bricks[j].kind {
                    let b_tx = b_pos.x + hitbox.0.center.x;
                    let b_ty = b_pos.y + hitbox.0.center.y;
                    let c = overlap(
                        Vec2i { x: a_tx, y: a_ty },
                        a_col.size,
                        Vec2i { x: b_tx, y: b_ty },
                        hitbox.0.size,
                    );
                    proof {
                        assert(gbox_of(Vec2i { x: a_tx, y: a_ty }, a_col.size) =~= abox);
                        assert(gbox_of(Vec2i { x: b_tx, y: b_ty }, hitbox.0.size)
                            =~= nails_hitbox_box(bricks0[j as int], hitbox));
                    }
                    if c.is_some() {
                        let pm = &mut state.players[i];
                        pm.health.lose_one();
                        any = true;
                        proof {
                            let s_post = nails_scan(h0, hmax, abox, bricks0.take(j + 1));
                            assert(s_post == (health_clamp(hmax, s_pre.0 - 1), true));
                        }
                    }
                }
                proof {
                    let s_post = nails_scan(h0, hmax, abox, bricks0.take(j + 1));
                    assert(state.players@[i as int]@ =~= (PlayerView {
                        health_value: s_post.0,
                        ..pv
                    }));
                }
                j += 1;
            }
            proof {
                assert(bricks0.take(nb as int) =~= bricks0);
            }
            let ghost s_all = nails_scan(h0, hmax, abox, bricks0);
            proof {
                lemma_nails_scan_no_hit(h0, hmax, abox, bricks0);
            }
            if any {
                let pm = &mut state.players[i];
                pm.damage = DamageState::Damaging { ticks_left: DAMAGING_TICKS };
            }
            proof {
                assert(state.players@[i as int]@ =~= nails_step_player(pv, bricks0));
            }
        }
        i += 1;
    }
}

/// The world box of the ceiling strip.
pub open spec fn ceiling_box(c: Ceiling) -> GBox {
    GBox {
        x: c.pos.x + c.hitbox.0.center.x,
        y: c.pos.y + c.hitbox.0.center.y,
        w: c.hitbox.0.size.x as int,
        h: c.hitbox.0.size.y as int,
    }
}

/// What the ceiling pass makes of one player: touching the strip while
/// not already knocked back costs one point and starts the damage
/// cooldown (unless it is already running), and always forces a strong
/// downward velocity and the knockback window, during which the player's
/// collider is withdrawn.
pub open spec fn ceiling_step_player(p: PlayerView, ceiling: Option<Ceiling>) -> PlayerView {
    if p.dead || !(p.ceiling_hurt is Clear) {
        p
    } else {
        match ceiling {
            Some(c) => if overlap_spec(player_box(p), ceiling_box(c)) is Some {
                let p1 = if p.damage is Clear {
                    PlayerView {
                        health_value: health_clamp(p.health_max, p.health_value - 1),
                        damage: DamageState::Damaging { ticks_left: DAMAGING_TICKS },
                        ..p
                    }
                } else {
                    p
                };
                PlayerView {
                    vy: -(CEILING_KNOCKBACK_SPEED as int),
                    ceiling_hurt: CeilingHurtState::Hurting { ticks_left: CEILING_HURT_TICKS },
                    ..p1
                }
            } else {
                p
            },
            None => p,
        }
    }
}

/// Damages and knocks back each player touching the ceiling strip.
#[verifier::loop_isolation(false)]
pub fn player_ceiling_hitbox_system(state: &mut GameState)
    requires
        old(state).wf(),
        old(state).positions_within(POS_LIMIT as int),
    ensures
        final(state).wf(),
        final(state).players@.len() == old(state).players@.len(),
        forall|i: int|
            0 <= i < old(state).players@.len() ==> (#[trigger] final(state).players@[i])@
                == ceiling_step_player(old(state).players@[i]@, old(state).ceiling),
        final(state).bricks == old(state).bricks,
        final(state).ceiling == old(state).ceiling,
        final(state).scoreboard == old(state).scoreboard,
        final(state).score_timer == old(state).score_timer,
        final(state).bounds == old(state).bounds,
        final(state).next_entity == old(state).next_entity,
{
    let ghost players0 = old(state).players@;
    let np = state.players.len();
    let mut i: usize = 0;
    while i < np
        invariant
            i <= np,
            np == players0.len(),
            state.players@.len() == players0.len(),
            state.wf(),
            forall|k: int|
                0 <= k < i ==> (#[trigger] state.players@[k])@ == ceiling_step_player(
                    players0[k]@,
                    old(state).ceiling,
                ),
            forall|k: int| i <= k < np ==> state.players@[k] == players0[k],
            state.bricks == old(state).bricks,
            state.ceiling == old(state).ceiling,
            state.scoreboard == old(state).scoreboard,
            state.score_timer == old(state).score_timer,
            state.bounds == old(state).bounds,
            state.next_entity == old(state).next_entity,
        decreases np - i,
    {
        let ghost pv = players0[i as int]@;
        let exposed = !state.players[i].dead && matches!(
            state.players[i].ceiling_hurt,
            CeilingHurtState::Clear,
        );
        if exposed {
            if let Some(c) = &state.ceiling {
                let c_tx = c.pos.x + c.hitbox.0.center.x;
                let c_ty = c.pos.y + c.hitbox.0.center.y;
                let c_size = c.hitbox.0.size;
                let px0 = state.players[i].pos.x;
                let py0 = state.players[i].pos.y;
                let a_col = state.players[i].collider;
                let hit = overlap(
                    Vec2i { x: px0 + a_col.center.x, y: py0 + a_col.center.y },
                    a_col.size,
                    Vec2i { x: c_tx, y: c_ty },
                    c_size,
                );
                if hit.is_some() {
                    let pm = &mut state.players[i];
                    if matches!(pm.damage, DamageState::Clear) {
                        pm.health.lose_one();
                        pm.damage = DamageState::Damaging { ticks_left: DAMAGING_TICKS };
                    }
                    pm.velocity = Vec2i { x: pm.velocity.x, y: -CEILING_KNOCKBACK_SPEED };
                    pm.ceiling_hurt = CeilingHurtState::Hurting { ticks_left: CEILING_HURT_TICKS };
                    proof {
                        assert(state.players@[i as int]@ =~= ceiling_step_player(
                            pv,
                            old(state).ceiling,
                        ));
                    }
                }
            }
        }
        i += 1;
    }
}

} // verus!
