//! The per-tick motion and collision phase: velocity integration, wall
//! recycling, and the player collision resolver that corrects position
//! and velocity against every active collider, records the tick's contact
//! set and emits collision and trigger-enter events.

use vstd::prelude::*;
use crate::brick::{Brick, BrickKind};
use crate::constants::{FALL_SPEED, JUMP_SPEED, POS_LIMIT, SIZE_LIMIT};
use crate::events::{
    empty_events, events_concat, CollisionEvent, ConveyorBrickTriggerEnterEvent,
    FakeBrickTriggerEnterEvent, NormalBrickTriggerEnterEvent, SpringBrickTriggerEnterEvent,
    TickEvents, TickEventsView, TriggerEvent,
};
use crate::geom::{overlap, overlap_spec, GBox, Side, Vec2i};
use crate::player::{JumpState, LastCollisions, Player, PlayerView};
use crate::state::GameState;

verus! {

/// The world box of a brick's solid collider.
pub open spec fn brick_box(b: Brick) -> GBox {
    GBox {
        x: b.pos.x + b.collider.center.x,
        y: b.pos.y + b.collider.center.y,
        w: b.collider.size.x as int,
        h: b.collider.size.y as int,
    }
}

/// The world box of a player's collider.
pub open spec fn player_box(p: PlayerView) -> GBox {
    GBox {
        x: p.px + p.collider.center.x,
        y: p.py + p.collider.center.y,
        w: p.collider.size.x as int,
        h: p.collider.size.y as int,
    }
}

/// Running state of one player's collision scan: position and velocity
/// with the corrections applied so far, the contact list, and the events
/// emitted so far.  Overlap tests throughout one scan use the player's
/// box as it stood when the scan began; only the correction target moves.
#[verifier::ext_equal]
pub ghost struct ScanAcc {
    pub px: int,
    pub py: int,
    pub vx: int,
    pub vy: int,
    pub hit_ids: Seq<u64>,
    pub hit_sides: Seq<Side>,
    pub events: TickEventsView,
}

/// The scan state before any brick has been visited: fall speed is
/// re-established each tick before corrections apply to it.
pub open spec fn init_scan(p: PlayerView) -> ScanAcc {
    ScanAcc {
        px: p.px,
        py: p.py,
        vx: p.vx,
        vy: -(FALL_SPEED as int),
        hit_ids: Seq::empty(),
        hit_sides: Seq::empty(),
        events: empty_events(),
    }
}

/// One side's correction: velocity is zeroed and the position snapped
/// outward only when the current velocity still pushes into the obstacle;
/// a velocity already retreating is left alone, and `Inside` corrects
/// nothing.
pub open spec fn apply_correction(acc: ScanAcc, side: Side, b: GBox, abox: GBox) -> ScanAcc {
    match side {
        Side::Left => if acc.vx > 0 {
            ScanAcc { vx: 0, px: b.x - b.w / 2 - abox.w / 2, ..acc }
        } else {
            acc
        },
        Side::Right => if acc.vx < 0 {
            ScanAcc { vx: 0, px: b.x + b.w / 2 + abox.w / 2, ..acc }
        } else {
            acc
        },
        Side::Top => if acc.vy < 0 {
            ScanAcc { vy: 0, py: b.y + b.h / 2 + abox.h / 2, ..acc }
        } else {
            acc
        },
        Side::Bottom => if acc.vy > 0 {
            ScanAcc { vy: 0, py: b.y - b.h / 2 - abox.h / 2, ..acc }
        } else {
            acc
        },
        Side::Inside => acc,
    }
}

/// The events one overlap adds: always a collision record, plus one typed
/// trigger-enter record when this is the first tick of contact and the
/// brick's kind carries a trigger.
pub open spec fn scan_push_events(
    ev: TickEventsView,
    b: Brick,
    pid: u64,
    side: Side,
    enter: bool,
) -> TickEventsView {
    let ev1 = TickEventsView {
        collisions: ev.collisions.push(
            CollisionEvent { a: pid, b: b.id, collision: side, a_is_player: true, b_is_player: false },
        ),
        ..ev
    };
    if enter {
        let te = TriggerEvent { myself: b.id, other: pid, collision: side };
        match b.kind {
            BrickKind::Normal => TickEventsView {
                normal_triggers: ev1.normal_triggers.push(NormalBrickTriggerEnterEvent(te)),
                ..ev1
            },
            BrickKind::Fake { .. } => TickEventsView {
                fake_triggers: ev1.fake_triggers.push(FakeBrickTriggerEnterEvent(te)),
                ..ev1
            },
            BrickKind::Spring { .. } => TickEventsView {
                spring_triggers: ev1.spring_triggers.push(SpringBrickTriggerEnterEvent(te)),
                ..ev1
            },
            BrickKind::Conveyor { .. } => TickEventsView {
                conveyor_triggers: ev1.conveyor_triggers.push(ConveyorBrickTriggerEnterEvent(te)),
                ..ev1
            },
            _ => ev1,
        }
    } else {
        ev1
    }
}

/// The scan state after visiting one brick: inactive colliders and
/// non-overlapping bricks change nothing; an overlap applies its
/// correction, appends the brick to the contact list and emits events,
/// with first contact judged against the previous tick's contact list.
pub open spec fn scan_brick(acc: ScanAcc, abox: GBox, b: Brick, last: Seq<u64>, pid: u64) -> ScanAcc {
    if !b.collider_active() {
        acc
    } else {
        match overlap_spec(abox, brick_box(b)) {
            None => acc,
            Some(side) => {
                let acc1 = apply_correction(acc, side, brick_box(b), abox);
                ScanAcc {
                    hit_ids: acc1.hit_ids.push(b.id),
                    hit_sides: acc1.hit_sides.push(side),
                    events: scan_push_events(acc1.events, b, pid, side, !last.contains(b.id)),
                    ..acc1
                }
            },
        }
    }
}

/// The scan state after visiting the bricks in order.
pub open spec fn scan_bricks(
    acc: ScanAcc,
    abox: GBox,
    bricks: Seq<Brick>,
    last: Seq<u64>,
    pid: u64,
) -> ScanAcc
    decreases bricks.len(),
{
    if bricks.len() == 0 {
        acc
    } else {
        scan_brick(
            scan_bricks(acc, abox, bricks.drop_last(), last, pid),
            abox,
            bricks.last(),
            last,
            pid,
        )
    }
}

/// One player's whole scan over a brick list.
pub open spec fn scan_of(p: PlayerView, bricks: Seq<Brick>) -> ScanAcc {
    scan_bricks(init_scan(p), player_box(p), bricks, p.lc_ids, p.id)
}

/// Whether the resolver passes a player by entirely: the dead are out of
/// the simulation and a player whose collider is withdrawn by the ceiling
/// knockback has nothing to scan with.
pub open spec fn resolver_skips(p: PlayerView) -> bool {
    p.dead || !(p.ceiling_hurt is Clear)
}

/// What the resolver makes of one player: a jumping player only has its
/// rise speed re-established and keeps its contact list; any other
/// scanned player takes the scan's corrected position and velocity and
/// its contact list is rebuilt in full from this tick's overlaps.
pub open spec fn resolve_player(p: PlayerView, bricks: Seq<Brick>) -> PlayerView {
    if resolver_skips(p) {
        p
    } else if p.jump is Jumping {
        PlayerView { vy: JUMP_SPEED as int, ..p }
    } else {
        let acc = scan_of(p, bricks);
        PlayerView {
            px: acc.px,
            py: acc.py,
            vx: acc.vx,
            vy: acc.vy,
            lc_ids: acc.hit_ids,
            lc_sides: acc.hit_sides,
            ..p
        }
    }
}

/// The events one player's resolution contributes.
pub open spec fn player_events(p: PlayerView, bricks: Seq<Brick>) -> TickEventsView {
    if resolver_skips(p) || p.jump is Jumping {
        empty_events()
    } else {
        scan_of(p, bricks).events
    }
}

/// The events of a whole resolver pass, player by player in order.
pub open spec fn resolver_events(players: Seq<PlayerView>, bricks: Seq<Brick>) -> TickEventsView
    decreases players.len(),
{
    if players.len() == 0 {
        empty_events()
    } else {
        events_concat(
            resolver_events(players.drop_last(), bricks),
            player_events(players.last(), bricks),
        )
    }
}

/// What integration makes of one player: one step of its velocity.
pub open spec fn integrate_player(p: PlayerView) -> PlayerView {
    if p.dead {
        p
    } else {
        PlayerView { px: p.px + p.vx, py: p.py + p.vy, ..p }
    }
}

/// What integration makes of one brick: one step of its drift.
pub open spec fn integrate_brick(b: Brick) -> Brick {
    Brick {
        pos: Vec2i {
            x: (b.pos.x + b.velocity.x) as i64,
            y: (b.pos.y + b.velocity.y) as i64,
        },
        ..b
    }
}

/// Membership in a scan's contact list, characterized: an identifier is
/// recorded exactly when it was carried in from the start or some
/// visited brick bears it, has an active collider and overlaps the
/// player's box.
proof fn lemma_scan_hit_ids(
    acc: ScanAcc,
    abox: GBox,
    bricks: Seq<Brick>,
    last: Seq<u64>,
    pid: u64,
    id: u64,
)
    ensures
        scan_bricks(acc, abox, bricks, last, pid).hit_ids.contains(id) <==> (acc.hit_ids.contains(
            id,
        ) || exists|k: int|
            0 <= k < bricks.len() && (#[trigger] bricks[k]).id == id
                && bricks[k].collider_active() && overlap_spec(abox, brick_box(bricks[k])) is Some),
    decreases bricks.len(),
{
    if bricks.len() == 0 {
    } else {
        let pre = bricks.drop_last();
        let b = bricks.last();
        lemma_scan_hit_ids(acc, abox, pre, last, pid, id);
        let s1 = scan_bricks(acc, abox, pre, last, pid);
        let s2 = scan_bricks(acc, abox, bricks, last, pid);
        let hit = b.collider_active() && overlap_spec(abox, brick_box(b)) is Some;
        if hit {
            assert(s2.hit_ids == s1.hit_ids.push(b.id));
            assert forall|x: u64| s1.hit_ids.push(b.id).contains(x) implies (s1.hit_ids.contains(x)
                || x == b.id) by {
                let w = choose|w: int|
                    0 <= w < s1.hit_ids.push(b.id).len() && s1.hit_ids.push(b.id)[w] == x;
                if w < s1.hit_ids.len() {
                    assert(s1.hit_ids[w] == x);
                }
            }
            if s1.hit_ids.contains(id) || id == b.id {
                assert(s1.hit_ids.push(b.id).contains(id)) by {
                    if id == b.id {
                        assert(s1.hit_ids.push(b.id)[s1.hit_ids.len() as int] == id);
                    } else {
                        let w = choose|w: int|
                            0 <= w < s1.hit_ids.len() && s1.hit_ids[w] == id;
                        assert(s1.hit_ids.push(b.id)[w] == id);
                    }
                }
            }
        } else {
            assert(s2.hit_ids == s1.hit_ids);
        }
        assert forall|k: int|
            0 <= k < pre.len() && (#[trigger] pre[k]).id == id && pre[k].collider_active()
                && overlap_spec(abox, brick_box(pre[k])) is Some implies exists|k2: int|
            0 <= k2 < bricks.len() && (#[trigger] bricks[k2]).id == id
                && bricks[k2].collider_active() && overlap_spec(abox, brick_box(bricks[k2])) is Some by {
            assert(bricks[k] == pre[k]);
        }
        if exists|k: int|
            0 <= k < bricks.len() && (#[trigger] bricks[k]).id == id && bricks[k].collider_active()
                && overlap_spec(abox, brick_box(bricks[k])) is Some {
            let k = choose|k: int|
                0 <= k < bricks.len() && (#[trigger] bricks[k]).id == id
                    && bricks[k].collider_active() && overlap_spec(
                    abox,
                    brick_box(bricks[k]),
                ) is Some;
            if k < pre.len() {
                assert(pre[k] == bricks[k]);
            } else {
                assert(bricks[k] == b);
            }
        }
    }
}

/// The contact list a resolver pass stores is exact: a brick is recorded
/// as collided with exactly when its collider was active and its box
/// overlapped the player's — no stale entries, no omissions.
pub proof fn lemma_last_collisions_exact(p: PlayerView, bricks: Seq<Brick>, j: int)
    requires
        !resolver_skips(p),
        !(p.jump is Jumping),
        0 <= j < bricks.len(),
        forall|a: int, b: int|
            0 <= a < b < bricks.len() ==> (#[trigger] bricks[a]).id != (#[trigger] bricks[b]).id,
    ensures
        resolve_player(p, bricks).lc_ids.contains(bricks[j].id) <==> (bricks[j].collider_active()
            && overlap_spec(player_box(p), brick_box(bricks[j])) is Some),
{
    lemma_scan_hit_ids(init_scan(p), player_box(p), bricks, p.lc_ids, p.id, bricks[j].id);
    if resolve_player(p, bricks).lc_ids.contains(bricks[j].id) {
        let k = choose|k: int|
            0 <= k < bricks.len() && (#[trigger] bricks[k]).id == bricks[j].id
                && bricks[k].collider_active() && overlap_spec(
                player_box(p),
                brick_box(bricks[k]),
            ) is Some;
        if k != j {
            if k < j {
                assert(bricks[k].id != bricks[j].id);
            } else {
                assert(bricks[j].id != bricks[k].id);
            }
        }
    }
}

/// Every event a scan appends names the brick that produced it: one
/// whose collider was active and whose box overlapped the player's.
/// Events already queued are left in place.
proof fn lemma_scan_event_sources(
    acc: ScanAcc,
    abox: GBox,
    bricks: Seq<Brick>,
    last: Seq<u64>,
    pid: u64,
)
    ensures
        ({
            let s = scan_bricks(acc, abox, bricks, last, pid);
            let hit = |k: int|
                0 <= k < bricks.len() && bricks[k].collider_active() && overlap_spec(
                    abox,
                    brick_box(bricks[k]),
                ) is Some;
            &&& s.events.collisions.len() >= acc.events.collisions.len()
            &&& forall|e: int|
                0 <= e < acc.events.collisions.len() ==> #[trigger] s.events.collisions[e]
                    == acc.events.collisions[e]
            &&& forall|e: int|
                acc.events.collisions.len() <= e < s.events.collisions.len() ==> exists|k: int|
                    hit(k) && (#[trigger] s.events.collisions[e]).b == bricks[k].id
            &&& s.events.normal_triggers.len() >= acc.events.normal_triggers.len()
            &&& forall|e: int|
                acc.events.normal_triggers.len() <= e < s.events.normal_triggers.len() ==> exists|
                    k: int,
                |
                    hit(k) && (#[trigger] s.events.normal_triggers[e]).0.myself == bricks[k].id
            &&& s.events.fake_triggers.len() >= acc.events.fake_triggers.len()
            &&& forall|e: int|
                acc.events.fake_triggers.len() <= e < s.events.fake_triggers.len() ==> exists|
                    k: int,
                |
                    hit(k) && (#[trigger] s.events.fake_triggers[e]).0.myself == bricks[k].id
            &&& s.events.spring_triggers.len() >= acc.events.spring_triggers.len()
            &&& forall|e: int|
                acc.events.spring_triggers.len() <= e < s.events.spring_triggers.len() ==> exists|
                    k: int,
                |
                    hit(k) && (#[trigger] s.events.spring_triggers[e]).0.myself == bricks[k].id
            &&& s.events.conveyor_triggers.len() >= acc.events.conveyor_triggers.len()
            &&& forall|e: int|
                acc.events.conveyor_triggers.len() <= e < s.events.conveyor_triggers.len()
                    ==> exists|k: int|
                    hit(k) && (#[trigger] s.events.conveyor_triggers[e]).0.myself == bricks[k].id
        }),
    decreases bricks.len(),
{
    if bricks.len() > 0 {
        let pre = bricks.drop_last();
        let b = bricks.last();
        lemma_scan_event_sources(acc, abox, pre, last, pid);
        let s1 = scan_bricks(acc, abox, pre, last, pid);
        let s2 = scan_bricks(acc, abox, bricks, last, pid);
        let hit = |k: int|
            0 <= k < bricks.len() && bricks[k].collider_active() && overlap_spec(
                abox,
                brick_box(bricks[k]),
            ) is Some;
        let hit_pre = |k: int|
            0 <= k < pre.len() && pre[k].collider_active() && overlap_spec(
                abox,
                brick_box(pre[k]),
            ) is Some;
        assert(forall|k: int| 0 <= k < pre.len() ==> #[trigger] pre[k] == bricks[k]);
        assert forall|e: int|
            acc.events.collisions.len() <= e < s2.events.collisions.len() implies exists|k: int|
            hit(k) && (#[trigger] s2.events.collisions[e]).b == bricks[k].id by {
            if e < s1.events.collisions.len() {
                let k = choose|k: int|
                    hit_pre(k) && (#[trigger] s1.events.collisions[e]).b == pre[k].id;
                assert(hit(k) && s2.events.collisions[e].b == bricks[k].id);
            } else {
                assert(hit(bricks.len() - 1) && s2.events.collisions[e].b == b.id);
            }
        }
        assert forall|e: int|
            acc.events.normal_triggers.len() <= e < s2.events.normal_triggers.len() implies exists|
            k: int,
        |
            hit(k) && (#[trigger] s2.events.normal_triggers[e]).0.myself == bricks[k].id by {
            if e < s1.events.normal_triggers.len() {
                let k = choose|k: int|
                    hit_pre(k) && (#[trigger] s1.events.normal_triggers[e]).0.myself == pre[k].id;
                assert(hit(k) && s2.events.normal_triggers[e].0.myself == bricks[k].id);
            } else {
                assert(hit(bricks.len() - 1) && s2.events.normal_triggers[e].0.myself == b.id);
            }
        }
        assert forall|e: int|
            acc.events.fake_triggers.len() <= e < s2.events.fake_triggers.len() implies exists|
            k: int,
        |
            hit(k) && (#[trigger] s2.events.fake_triggers[e]).0.myself == bricks[k].id by {
            if e < s1.events.fake_triggers.len() {
                let k = choose|k: int|
                    hit_pre(k) && (#[trigger] s1.events.fake_triggers[e]).0.myself == pre[k].id;
                assert(hit(k) && s2.events.fake_triggers[e].0.myself == bricks[k].id);
            } else {
                assert(hit(bricks.len() - 1) && s2.events.fake_triggers[e].0.myself == b.id);
            }
        }
        assert forall|e: int|
            acc.events.spring_triggers.len() <= e < s2.events.spring_triggers.len() implies exists|
            k: int,
        |
            hit(k) && (#[trigger] s2.events.spring_triggers[e]).0.myself == bricks[k].id by {
            if e < s1.events.spring_triggers.len() {
                let k = choose|k: int|
                    hit_pre(k) && (#[trigger] s1.events.spring_triggers[e]).0.myself == pre[k].id;
                assert(hit(k) && s2.events.spring_triggers[e].0.myself == bricks[k].id);
            } else {
                assert(hit(bricks.len() - 1) && s2.events.spring_triggers[e].0.myself == b.id);
            }
        }
        assert forall|e: int|
            acc.events.conveyor_triggers.len() <= e < s2.events.conveyor_triggers.len()
            implies exists|k: int|
            hit(k) && (#[trigger] s2.events.conveyor_triggers[e]).0.myself == bricks[k].id by {
            if e < s1.events.conveyor_triggers.len() {
                let k = choose|k: int|
                    hit_pre(k) && (#[trigger] s1.events.conveyor_triggers[e]).0.myself
                        == pre[k].id;
                assert(hit(k) && s2.events.conveyor_triggers[e].0.myself == bricks[k].id);
            } else {
                assert(hit(bricks.len() - 1) && s2.events.conveyor_triggers[e].0.myself == b.id);
            }
        }
    }
}

/// A brick with zero overlap — or one whose collider is withdrawn —
/// leaves no trace on a scanned player: no collision record names it,
/// no typed trigger names it, and it is absent from the rebuilt contact
/// list.  Together with `lemma_last_collisions_exact` this is the
/// classification law at the resolver: disjoint boxes produce nothing.
pub proof fn lemma_no_overlap_no_events(p: PlayerView, bricks: Seq<Brick>, j: int)
    requires
        !resolver_skips(p),
        !(p.jump is Jumping),
        0 <= j < bricks.len(),
        !(bricks[j].collider_active() && overlap_spec(player_box(p), brick_box(bricks[j])) is Some),
        forall|a: int, b: int|
            0 <= a < b < bricks.len() ==> (#[trigger] bricks[a]).id != (#[trigger] bricks[b]).id,
    ensures
        ({
            let evs = player_events(p, bricks);
            &&& forall|e: int|
                0 <= e < evs.collisions.len() ==> (#[trigger] evs.collisions[e]).b != bricks[j].id
            &&& forall|e: int|
                0 <= e < evs.normal_triggers.len() ==> (#[trigger] evs.normal_triggers[e]).0.myself
                    != bricks[j].id
            &&& forall|e: int|
                0 <= e < evs.fake_triggers.len() ==> (#[trigger] evs.fake_triggers[e]).0.myself
                    != bricks[j].id
            &&& forall|e: int|
                0 <= e < evs.spring_triggers.len() ==> (#[trigger] evs.spring_triggers[e]).0.myself
                    != bricks[j].id
            &&& forall|e: int|
                0 <= e < evs.conveyor_triggers.len() ==> (
                #[trigger] evs.conveyor_triggers[e]).0.myself != bricks[j].id
        }),
        !resolve_player(p, bricks).lc_ids.contains(bricks[j].id),
{
    lemma_scan_event_sources(init_scan(p), player_box(p), bricks, p.lc_ids, p.id);
    lemma_last_collisions_exact(p, bricks, j);
    let abox = player_box(p);
    let hit = |k: int|
        0 <= k < bricks.len() && bricks[k].collider_active() && overlap_spec(
            abox,
            brick_box(bricks[k]),
        ) is Some;
    let evs = player_events(p, bricks);
    assert forall|e: int| 0 <= e < evs.collisions.len() implies (#[trigger] evs.collisions[e]).b
        != bricks[j].id by {
        let k = choose|k: int| hit(k) && (#[trigger] evs.collisions[e]).b == bricks[k].id;
        if evs.collisions[e].b == bricks[j].id {
            if k < j {
                assert(bricks[k].id != bricks[j].id);
            } else if j < k {
                assert(bricks[j].id != bricks[k].id);
            }
        }
    }
    assert forall|e: int| 0 <= e < evs.normal_triggers.len() implies (
    #[trigger] evs.normal_triggers[e]).0.myself != bricks[j].id by {
        let k = choose|k: int|
            hit(k) && (#[trigger] evs.normal_triggers[e]).0.myself == bricks[k].id;
        if evs.normal_triggers[e].0.myself == bricks[j].id {
            if k < j {
                assert(bricks[k].id != bricks[j].id);
            } else if j < k {
                assert(bricks[j].id != bricks[k].id);
            }
        }
    }
    assert forall|e: int| 0 <= e < evs.fake_triggers.len() implies (
    #[trigger] evs.fake_triggers[e]).0.myself != bricks[j].id by {
        let k = choose|k: int| hit(k) && (#[trigger] evs.fake_triggers[e]).0.myself == bricks[k].id;
        if evs.fake_triggers[e].0.myself == bricks[j].id {
            if k < j {
                assert(bricks[k].id != bricks[j].id);
            } else if j < k {
                assert(bricks[j].id != bricks[k].id);
            }
        }
    }
    assert forall|e: int| 0 <= e < evs.spring_triggers.len() implies (
    #[trigger] evs.spring_triggers[e]).0.myself != bricks[j].id by {
        let k = choose|k: int|
            hit(k) && (#[trigger] evs.spring_triggers[e]).0.myself == bricks[k].id;
        if evs.spring_triggers[e].0.myself == bricks[j].id {
            if k < j {
                assert(bricks[k].id != bricks[j].id);
            } else if j < k {
                assert(bricks[j].id != bricks[k].id);
            }
        }
    }
    assert forall|e: int| 0 <= e < evs.conveyor_triggers.len() implies (
    #[trigger] evs.conveyor_triggers[e]).0.myself != bricks[j].id by {
        let k = choose|k: int|
            hit(k) && (#[trigger] evs.conveyor_triggers[e]).0.myself == bricks[k].id;
        if evs.conveyor_triggers[e].0.myself == bricks[j].id {
            if k < j {
                assert(bricks[k].id != bricks[j].id);
            } else if j < k {
                assert(bricks[j].id != bricks[k].id);
            }
        }
    }
}

/// Whether a brick's kind carries a typed trigger queue at all: nails
/// bricks and walls react through other channels.
pub open spec fn carries_trigger(b: Brick) -> bool {
    match b.kind {
        BrickKind::Normal => true,
        BrickKind::Fake { .. } => true,
        BrickKind::Spring { .. } => true,
        BrickKind::Conveyor { .. } => true,
        _ => false,
    }
}

/// Whether a scan's typed trigger queue of the given brick kind names
/// this brick.
pub open spec fn names_in_triggers(ev: TickEventsView, b: Brick, id: u64) -> bool {
    match b.kind {
        BrickKind::Normal => exists|e: int|
            0 <= e < ev.normal_triggers.len() && (#[trigger] ev.normal_triggers[e]).0.myself == id,
        BrickKind::Fake { .. } => exists|e: int|
            0 <= e < ev.fake_triggers.len() && (#[trigger] ev.fake_triggers[e]).0.myself == id,
        BrickKind::Spring { .. } => exists|e: int|
            0 <= e < ev.spring_triggers.len() && (#[trigger] ev.spring_triggers[e]).0.myself == id,
        BrickKind::Conveyor { .. } => exists|e: int|
            0 <= e < ev.conveyor_triggers.len() && (#[trigger] ev.conveyor_triggers[e]).0.myself
                == id,
        _ => false,
    }
}

/// Membership in a scan's typed trigger queues, characterized: the
/// queue of a brick's kind names it exactly when it was already named
/// at the start, or it has an active collider, overlaps the player and
/// is absent from the previous tick's contact list.
proof fn lemma_scan_trigger_ids(
    acc: ScanAcc,
    abox: GBox,
    bricks: Seq<Brick>,
    last: Seq<u64>,
    pid: u64,
    j: int,
)
    requires
        0 <= j < bricks.len(),
        forall|a: int, b: int|
            0 <= a < b < bricks.len() ==> (#[trigger] bricks[a]).id != (#[trigger] bricks[b]).id,
    ensures
        names_in_triggers(
            scan_bricks(acc, abox, bricks, last, pid).events,
            bricks[j],
            bricks[j].id,
        ) <==> (names_in_triggers(acc.events, bricks[j], bricks[j].id) || (
        bricks[j].collider_active() && overlap_spec(abox, brick_box(bricks[j])) is Some
            && !last.contains(bricks[j].id) && carries_trigger(bricks[j]))),
    decreases bricks.len(),
{
    let s = scan_bricks(acc, abox, bricks, last, pid);
    if bricks.len() == 1 {
        assert(bricks.drop_last().len() == 0);
        assert(scan_bricks(acc, abox, bricks.drop_last(), last, pid) == acc);
        assert(bricks.last() == bricks[0]);
        lemma_scan_brick_trigger(acc, abox, bricks[0], last, pid, bricks[j]);
    } else {
        let pre = bricks.drop_last();
        let b = bricks.last();
        assert(forall|k: int| 0 <= k < pre.len() ==> #[trigger] pre[k] == bricks[k]);
        let s1 = scan_bricks(acc, abox, pre, last, pid);
        if j < pre.len() {
            lemma_scan_trigger_ids(acc, abox, pre, last, pid, j);
            assert(b.id != bricks[j].id);
            lemma_scan_brick_trigger(s1, abox, b, last, pid, bricks[j]);
        } else {
            assert(bricks[j] == b);
            lemma_scan_brick_trigger(s1, abox, b, last, pid, b);
            lemma_scan_no_new_trigger(acc, abox, pre, last, pid, b);
        }
    }
}

/// One brick's visit names a brick `c` in the typed queues exactly when
/// it was already named, or the visited brick is `c` itself, entering.
proof fn lemma_scan_brick_trigger(
    acc: ScanAcc,
    abox: GBox,
    b: Brick,
    last: Seq<u64>,
    pid: u64,
    c: Brick,
)
    requires
        b.id == c.id ==> b == c,
    ensures
        names_in_triggers(scan_brick(acc, abox, b, last, pid).events, c, c.id) <==> (
        names_in_triggers(acc.events, c, c.id) || (b == c && b.collider_active() && overlap_spec(
            abox,
            brick_box(b),
        ) is Some && !last.contains(b.id) && carries_trigger(b))),
{
    let s = scan_brick(acc, abox, b, last, pid);
    if b.collider_active() && overlap_spec(abox, brick_box(b)) is Some {
        let enter = !last.contains(b.id);
        assert forall|e: int|
            0 <= e < s.events.normal_triggers.len() implies #[trigger] s.events.normal_triggers[e]
                == (if e < acc.events.normal_triggers.len() {
                acc.events.normal_triggers[e]
            } else {
                s.events.normal_triggers[s.events.normal_triggers.len() - 1]
            }) by {}
        assert forall|e: int|
            0 <= e < s.events.fake_triggers.len() implies #[trigger] s.events.fake_triggers[e] == (
            if e < acc.events.fake_triggers.len() {
                acc.events.fake_triggers[e]
            } else {
                s.events.fake_triggers[s.events.fake_triggers.len() - 1]
            }) by {}
        assert forall|e: int|
            0 <= e < s.events.spring_triggers.len() implies #[trigger] s.events.spring_triggers[e]
                == (if e < acc.events.spring_triggers.len() {
                acc.events.spring_triggers[e]
            } else {
                s.events.spring_triggers[s.events.spring_triggers.len() - 1]
            }) by {}
        assert forall|e: int|
            0 <= e < s.events.conveyor_triggers.len() implies (
            #[trigger] s.events.conveyor_triggers[e]) == (if e
                < acc.events.conveyor_triggers.len() {
                acc.events.conveyor_triggers[e]
            } else {
                s.events.conveyor_triggers[s.events.conveyor_triggers.len() - 1]
            }) by {}
        if names_in_triggers(acc.events, c, c.id) {
            assert(names_in_triggers(s.events, c, c.id)) by {
                match c.kind {
                    BrickKind::Normal => {
                        let e = choose|e: int|
                            0 <= e < acc.events.normal_triggers.len() && (
                            #[trigger] acc.events.normal_triggers[e]).0.myself == c.id;
                        assert(s.events.normal_triggers[e].0.myself == c.id);
                    },
                    BrickKind::Fake { .. } => {
                        let e = choose|e: int|
                            0 <= e < acc.events.fake_triggers.len() && (
                            #[trigger] acc.events.fake_triggers[e]).0.myself == c.id;
                        assert(s.events.fake_triggers[e].0.myself == c.id);
                    },
                    BrickKind::Spring { .. } => {
                        let e = choose|e: int|
                            0 <= e < acc.events.spring_triggers.len() && (
                            #[trigger] acc.events.spring_triggers[e]).0.myself == c.id;
                        assert(s.events.spring_triggers[e].0.myself == c.id);
                    },
                    BrickKind::Conveyor { .. } => {
                        let e = choose|e: int|
                            0 <= e < acc.events.conveyor_triggers.len() && (
                            #[trigger] acc.events.conveyor_triggers[e]).0.myself == c.id;
                        assert(s.events.conveyor_triggers[e].0.myself == c.id);
                    },
                    _ => {},
                }
            }
        }
        if b == c && enter && carries_trigger(b) {
            assert(names_in_triggers(s.events, c, c.id)) by {
                match b.kind {
                    BrickKind::Normal => {
                        assert(s.events.normal_triggers[s.events.normal_triggers.len()
                            - 1].0.myself == b.id);
                    },
                    BrickKind::Fake { .. } => {
                        assert(s.events.fake_triggers[s.events.fake_triggers.len() - 1].0.myself
                            == b.id);
                    },
                    BrickKind::Spring { .. } => {
                        assert(s.events.spring_triggers[s.events.spring_triggers.len()
                            - 1].0.myself == b.id);
                    },
                    BrickKind::Conveyor { .. } => {
                        assert(s.events.conveyor_triggers[s.events.conveyor_triggers.len()
                            - 1].0.myself == b.id);
                    },
                    _ => {},
                }
            }
        }
    }
}

/// A scan over bricks all bearing identifiers other than `c.id` never
/// names `c` in the typed queues beyond what was already there.
proof fn lemma_scan_no_new_trigger(
    acc: ScanAcc,
    abox: GBox,
    bricks: Seq<Brick>,
    last: Seq<u64>,
    pid: u64,
    c: Brick,
)
    requires
        forall|k: int| 0 <= k < bricks.len() ==> (#[trigger] bricks[k]).id != c.id,
    ensures
        names_in_triggers(scan_bricks(acc, abox, bricks, last, pid).events, c, c.id)
            <==> names_in_triggers(acc.events, c, c.id),
    decreases bricks.len(),
{
    if bricks.len() > 0 {
        let pre = bricks.drop_last();
        assert(forall|k: int| 0 <= k < pre.len() ==> #[trigger] pre[k] == bricks[k]);
        lemma_scan_no_new_trigger(acc, abox, pre, last, pid, c);
        let s1 = scan_bricks(acc, abox, pre, last, pid);
        let b = bricks.last();
        assert(b.id != c.id);
        lemma_scan_brick_trigger_other(s1, abox, b, last, pid, c);
    }
}

/// Visiting a brick with a different identifier neither adds nor drops
/// a naming of `c`.
proof fn lemma_scan_brick_trigger_other(
    acc: ScanAcc,
    abox: GBox,
    b: Brick,
    last: Seq<u64>,
    pid: u64,
    c: Brick,
)
    requires
        b.id != c.id,
    ensures
        names_in_triggers(scan_brick(acc, abox, b, last, pid).events, c, c.id)
            <==> names_in_triggers(acc.events, c, c.id),
{
    let s = scan_brick(acc, abox, b, last, pid);
    if b.collider_active() && overlap_spec(abox, brick_box(b)) is Some {
        if names_in_triggers(acc.events, c, c.id) {
            assert(names_in_triggers(s.events, c, c.id)) by {
                match c.kind {
                    BrickKind::Normal => {
                        let e = choose|e: int|
                            0 <= e < acc.events.normal_triggers.len() && (
                            #[trigger] acc.events.normal_triggers[e]).0.myself == c.id;
                        assert(s.events.normal_triggers[e].0.myself == c.id);
                    },
                    BrickKind::Fake { .. } => {
                        let e = choose|e: int|
                            0 <= e < acc.events.fake_triggers.len() && (
                            #[trigger] acc.events.fake_triggers[e]).0.myself == c.id;
                        assert(s.events.fake_triggers[e].0.myself == c.id);
                    },
                    BrickKind::Spring { .. } => {
                        let e = choose|e: int|
                            0 <= e < acc.events.spring_triggers.len() && (
                            #[trigger] acc.events.spring_triggers[e]).0.myself == c.id;
                        assert(s.events.spring_triggers[e].0.myself == c.id);
                    },
                    BrickKind::Conveyor { .. } => {
                        let e = choose|e: int|
                            0 <= e < acc.events.conveyor_triggers.len() && (
                            #[trigger] acc.events.conveyor_triggers[e]).0.myself == c.id;
                        assert(s.events.conveyor_triggers[e].0.myself == c.id);
                    },
                    _ => {},
                }
            }
        }
        if names_in_triggers(s.events, c, c.id) {
            assert(names_in_triggers(acc.events, c, c.id)) by {
                match c.kind {
                    BrickKind::Normal => {
                        let e = choose|e: int|
                            0 <= e < s.events.normal_triggers.len() && (
                            #[trigger] s.events.normal_triggers[e]).0.myself == c.id;
                        assert(e < acc.events.normal_triggers.len());
                        assert(acc.events.normal_triggers[e].0.myself == c.id);
                    },
                    BrickKind::Fake { .. } => {
                        let e = choose|e: int|
                            0 <= e < s.events.fake_triggers.len() && (
                            #[trigger] s.events.fake_triggers[e]).0.myself == c.id;
                        assert(e < acc.events.fake_triggers.len());
                        assert(acc.events.fake_triggers[e].0.myself == c.id);
                    },
                    BrickKind::Spring { .. } => {
                        let e = choose|e: int|
                            0 <= e < s.events.spring_triggers.len() && (
                            #[trigger] s.events.spring_triggers[e]).0.myself == c.id;
                        assert(e < acc.events.spring_triggers.len());
                        assert(acc.events.spring_triggers[e].0.myself == c.id);
                    },
                    BrickKind::Conveyor { .. } => {
                        let e = choose|e: int|
                            0 <= e < s.events.conveyor_triggers.len() && (
                            #[trigger] s.events.conveyor_triggers[e]).0.myself == c.id;
                        assert(e < acc.events.conveyor_triggers.len());
                        assert(acc.events.conveyor_triggers[e].0.myself == c.id);
                    },
                    _ => {},
                }
            }
        }
    }
}

/// Trigger-enter is exact: for a scanned player, the typed trigger
/// queue of a brick's kind names the brick on this tick exactly when
/// its active collider overlaps the player's box and the brick is
/// absent from the previous tick's contact list — so over consecutive
/// ticks of continuous contact the trigger fires only on the first.
pub proof fn lemma_trigger_enter_exact(p: PlayerView, bricks: Seq<Brick>, j: int)
    requires
        !resolver_skips(p),
        !(p.jump is Jumping),
        0 <= j < bricks.len(),
        forall|a: int, b: int|
            0 <= a < b < bricks.len() ==> (#[trigger] bricks[a]).id != (#[trigger] bricks[b]).id,
    ensures
        names_in_triggers(player_events(p, bricks), bricks[j], bricks[j].id) <==> (
        bricks[j].collider_active() && overlap_spec(player_box(p), brick_box(bricks[j])) is Some
            && !p.lc_ids.contains(bricks[j].id) && carries_trigger(bricks[j])),
{
    lemma_scan_trigger_ids(init_scan(p), player_box(p), bricks, p.lc_ids, p.id, j);
    assert(!names_in_triggers(init_scan(p).events, bricks[j], bricks[j].id));
}

/// Removing a brick the scan never touched changes nothing: the scan
/// over the remaining bricks is the very same scan.
proof fn lemma_scan_remove_miss(
    acc: ScanAcc,
    abox: GBox,
    bricks: Seq<Brick>,
    last: Seq<u64>,
    pid: u64,
    j: int,
)
    requires
        0 <= j < bricks.len(),
        !(bricks[j].collider_active() && overlap_spec(abox, brick_box(bricks[j])) is Some),
    ensures
        scan_bricks(acc, abox, bricks.remove(j), last, pid) == scan_bricks(
            acc,
            abox,
            bricks,
            last,
            pid,
        ),
    decreases bricks.len(),
{
    if j == bricks.len() - 1 {
        assert(bricks.remove(j) =~= bricks.drop_last());
    } else {
        let pre = bricks.drop_last();
        assert(pre[j] == bricks[j]);
        lemma_scan_remove_miss(acc, abox, pre, last, pid, j);
        assert(bricks.remove(j).drop_last() =~= pre.remove(j));
        assert(bricks.remove(j).last() == bricks.last());
    }
}

/// A brick with zero overlap — or one whose collider is withdrawn —
/// applies no correction at all: the resolver's result on the whole
/// brick list, position and velocity included, equals its result with
/// that brick removed, and so do the emitted events.
pub proof fn lemma_no_overlap_no_correction(p: PlayerView, bricks: Seq<Brick>, j: int)
    requires
        !resolver_skips(p),
        !(p.jump is Jumping),
        0 <= j < bricks.len(),
        !(bricks[j].collider_active() && overlap_spec(player_box(p), brick_box(bricks[j])) is Some),
    ensures
        resolve_player(p, bricks) == resolve_player(p, bricks.remove(j)),
        player_events(p, bricks) == player_events(p, bricks.remove(j)),
{
    lemma_scan_remove_miss(init_scan(p), player_box(p), bricks, p.lc_ids, p.id, j);
}

/// The same bricks with every position shifted by one common vector.
pub open spec fn bricks_shifted(bricks: Seq<Brick>, dx: int, dy: int) -> Seq<Brick> {
    bricks.map_values(
        |b: Brick|
            Brick {
                pos: Vec2i { x: (b.pos.x + dx) as i64, y: (b.pos.y + dy) as i64 },
                ..b
            },
    )
}

/// Whether shifting these bricks by the vector stays within `i64`, so
/// the shifted positions are exact.
pub open spec fn shift_fits(bricks: Seq<Brick>, dx: int, dy: int) -> bool {
    forall|k: int|
        0 <= k < bricks.len() ==> i64::MIN <= (#[trigger] bricks[k]).pos.x + dx <= i64::MAX
            && i64::MIN <= bricks[k].pos.y + dy <= i64::MAX
}

/// A scan is translation invariant: shifting the player's box and every
/// brick by one common vector yields the same classifications, the same
/// contact list and the same events, with the corrected position
/// shifted by exactly that vector.
proof fn lemma_scan_shifted(
    acc: ScanAcc,
    abox: GBox,
    bricks: Seq<Brick>,
    last: Seq<u64>,
    pid: u64,
    dx: int,
    dy: int,
)
    requires
        shift_fits(bricks, dx, dy),
    ensures
        scan_bricks(
            ScanAcc { px: acc.px + dx, py: acc.py + dy, ..acc },
            crate::geom::gbox_shift(abox, dx, dy),
            bricks_shifted(bricks, dx, dy),
            last,
            pid,
        ) == ({
            let s = scan_bricks(acc, abox, bricks, last, pid);
            ScanAcc { px: s.px + dx, py: s.py + dy, ..s }
        }),
    decreases bricks.len(),
{
    let acc2 = ScanAcc { px: acc.px + dx, py: acc.py + dy, ..acc };
    let abox2 = crate::geom::gbox_shift(abox, dx, dy);
    let shifted = bricks_shifted(bricks, dx, dy);
    if bricks.len() == 0 {
        assert(shifted.len() == 0);
        assert(scan_bricks(acc2, abox2, shifted, last, pid) =~= acc2);
    } else {
        let pre = bricks.drop_last();
        let b = bricks.last();
        assert(forall|k: int| 0 <= k < pre.len() ==> #[trigger] pre[k] == bricks[k]);
        lemma_scan_shifted(acc, abox, pre, last, pid, dx, dy);
        assert(shifted.drop_last() =~= bricks_shifted(pre, dx, dy));
        let b2 = shifted.last();
        assert(b2 == (Brick {
            pos: Vec2i { x: (b.pos.x + dx) as i64, y: (b.pos.y + dy) as i64 },
            ..b
        }));
        assert(brick_box(b2) =~= crate::geom::gbox_shift(brick_box(b), dx, dy));
        crate::geom::lemma_overlap_translation_invariant(abox, brick_box(b), dx, dy);
        let s1 = scan_bricks(acc, abox, pre, last, pid);
        let s1s = ScanAcc { px: s1.px + dx, py: s1.py + dy, ..s1 };
        assert(scan_brick(s1s, abox2, b2, last, pid) =~= ({
            let s = scan_brick(s1, abox, b, last, pid);
            ScanAcc { px: s.px + dx, py: s.py + dy, ..s }
        }));
    }
}

/// The resolver is translation invariant: running it on the same player
/// and bricks with every position shifted by one common vector yields
/// the same collision sides, the same contact list and the very same
/// events, and a corrected position that differs by exactly that
/// vector.
pub proof fn lemma_resolver_translation_invariant(
    p: PlayerView,
    bricks: Seq<Brick>,
    dx: int,
    dy: int,
)
    requires
        shift_fits(bricks, dx, dy),
    ensures
        ({
            let q = PlayerView { px: p.px + dx, py: p.py + dy, ..p };
            let r1 = resolve_player(p, bricks);
            let r2 = resolve_player(q, bricks_shifted(bricks, dx, dy));
            &&& r2 == (PlayerView { px: r1.px + dx, py: r1.py + dy, ..r1 })
            &&& player_events(q, bricks_shifted(bricks, dx, dy)) == player_events(p, bricks)
        }),
{
    let q = PlayerView { px: p.px + dx, py: p.py + dy, ..p };
    let shifted = bricks_shifted(bricks, dx, dy);
    if resolver_skips(p) {
        assert(resolve_player(q, shifted) =~= (PlayerView {
            px: resolve_player(p, bricks).px + dx,
            py: resolve_player(p, bricks).py + dy,
            ..resolve_player(p, bricks)
        }));
    } else if p.jump is Jumping {
        assert(resolve_player(q, shifted) =~= (PlayerView {
            px: resolve_player(p, bricks).px + dx,
            py: resolve_player(p, bricks).py + dy,
            ..resolve_player(p, bricks)
        }));
    } else {
        assert(player_box(q) =~= crate::geom::gbox_shift(player_box(p), dx, dy));
        assert(init_scan(q) =~= (ScanAcc {
            px: init_scan(p).px + dx,
            py: init_scan(p).py + dy,
            ..init_scan(p)
        }));
        lemma_scan_shifted(init_scan(p), player_box(p), bricks, p.lc_ids, p.id, dx, dy);
        assert(resolve_player(q, shifted) =~= (PlayerView {
            px: resolve_player(p, bricks).px + dx,
            py: resolve_player(p, bricks).py + dy,
            ..resolve_player(p, bricks)
        }));
    }
}

/// A scan moves the player no further than one snap beyond the brick
/// field: position stays within `limit` plus two collider extents, and
/// the velocity components are each kept or zeroed.
pub proof fn lemma_scan_bounds(
    acc: ScanAcc,
    abox: GBox,
    bricks: Seq<Brick>,
    last: Seq<u64>,
    pid: u64,
    limit: int,
)
    requires
        limit >= 0,
        -limit - 2 * (SIZE_LIMIT as int) <= acc.px <= limit + 2 * (SIZE_LIMIT as int),
        -limit - 2 * (SIZE_LIMIT as int) <= acc.py <= limit + 2 * (SIZE_LIMIT as int),
        0 <= abox.w <= SIZE_LIMIT as int,
        0 <= abox.h <= SIZE_LIMIT as int,
        forall|k: int| 0 <= k < bricks.len() ==> (#[trigger] bricks[k]).wf(),
        forall|k: int|
            0 <= k < bricks.len() ==> crate::geom::v2_within((#[trigger] bricks[k]).pos, limit),
    ensures
        ({
            let s = scan_bricks(acc, abox, bricks, last, pid);
            &&& -limit - 2 * (SIZE_LIMIT as int) <= s.px <= limit + 2 * (SIZE_LIMIT as int)
            &&& -limit - 2 * (SIZE_LIMIT as int) <= s.py <= limit + 2 * (SIZE_LIMIT as int)
            &&& (s.vx == acc.vx || s.vx == 0)
            &&& (s.vy == acc.vy || s.vy == 0)
        }),
    decreases bricks.len(),
{
    if bricks.len() == 0 {
    } else {
        let pre = bricks.drop_last();
        assert(forall|k: int| 0 <= k < pre.len() ==> pre[k] == bricks[k]);
        lemma_scan_bounds(acc, abox, pre, last, pid, limit);
        assert(bricks.last() == bricks[bricks.len() - 1]);
    }
}

/// A collision scan emits no death notifications.
pub proof fn lemma_scan_no_dead(acc: ScanAcc, abox: GBox, bricks: Seq<Brick>, last: Seq<u64>, pid: u64)
    ensures
        scan_bricks(acc, abox, bricks, last, pid).events.player_enter_dead
            == acc.events.player_enter_dead,
    decreases bricks.len(),
{
    if bricks.len() > 0 {
        lemma_scan_no_dead(acc, abox, bricks.drop_last(), last, pid);
    }
}

/// A whole resolver pass emits no death notifications.
pub proof fn lemma_resolver_events_no_dead(players: Seq<PlayerView>, bricks: Seq<Brick>)
    ensures
        resolver_events(players, bricks).player_enter_dead == Seq::<
            crate::events::PlayerEnterDeadEvent,
        >::empty(),
    decreases players.len(),
{
    if players.len() > 0 {
        lemma_resolver_events_no_dead(players.drop_last(), bricks);
        let p = players.last();
        if !(resolver_skips(p) || p.jump is Jumping) {
            lemma_scan_no_dead(init_scan(p), player_box(p), bricks, p.lc_ids, p.id);
        }
        assert(resolver_events(players, bricks).player_enter_dead =~= Seq::<
            crate::events::PlayerEnterDeadEvent,
        >::empty());
    }
}

/// Whether `v@.contains(id)`.
pub fn contains_id(v: &Vec<u64>, id: u64) -> (r: bool)
    ensures
        r == v@.contains(id),
{
    let n = v.len();
    let mut i: usize = 0;
    while i < n
        invariant
            i <= n,
            n == v@.len(),
            forall|k: int| 0 <= k < i ==> v@[k] != id,
        decreases n - i,
    {
        if v[i] == id {
            return true;
        }
        i += 1;
    }
    false
}

/// Moves every living player and every brick by its velocity.  Positions
/// must leave one tick of headroom below the arithmetic bound.
#[verifier::loop_isolation(false)]
pub fn velocity_system(state: &mut GameState)
    requires
        old(state).wf(),
        old(state).positions_within(POS_LIMIT - SIZE_LIMIT),
    ensures
        final(state).wf(),
        final(state).positions_within(POS_LIMIT as int),
        final(state).players@.len() == old(state).players@.len(),
        forall|i: int|
            0 <= i < old(state).players@.len() ==> (#[trigger] final(state).players@[i])@
                == integrate_player(old(state).players@[i]@),
        final(state).bricks@.len() == old(state).bricks@.len(),
        forall|i: int|
            0 <= i < old(state).bricks@.len() ==> #[trigger] final(state).bricks@[i]
                == integrate_brick(old(state).bricks@[i]),
        final(state).ceiling == old(state).ceiling,
        final(state).scoreboard == old(state).scoreboard,
        final(state).score_timer == old(state).score_timer,
        final(state).bounds == old(state).bounds,
        final(state).next_entity == old(state).next_entity,
{
    let np = state.players.len();
    let mut i: usize = 0;
    while i < np
        invariant
            i <= np,
            state.players@.len() == old(state).players@.len(),
            np == state.players@.len(),
            forall|k: int|
                0 <= k < i ==> (#[trigger] state.players@[k])@ == integrate_player(
                    old(state).players@[k]@,
                ),
            forall|k: int| i <= k < np ==> state.players@[k] == old(state).players@[k],
            forall|k: int|
                0 <= k < i ==> crate::geom::v2_within(
                    (#[trigger] state.players@[k]).pos,
                    POS_LIMIT as int,
                ),
            state.bricks == old(state).bricks,
            state.ceiling == old(state).ceiling,
            state.scoreboard == old(state).scoreboard,
            state.score_timer == old(state).score_timer,
            state.bounds == old(state).bounds,
            state.next_entity == old(state).next_entity,
        decreases np - i,
    {
        if !state.players[i].dead {
            let p = &mut state.players[i];
            p.pos = Vec2i { x: p.pos.x + p.velocity.x, y: p.pos.y + p.velocity.y };
        }
        i += 1;
    }
    let nb = state.bricks.len();
    let mut j: usize = 0;
    while j < nb
        invariant
            j <= nb,
            state.bricks@.len() == old(state).bricks@.len(),
            nb == state.bricks@.len(),
            forall|k: int|
                0 <= k < j ==> #[trigger] state.bricks@[k] == integrate_brick(
                    old(state).bricks@[k],
                ),
            forall|k: int| j <= k < nb ==> state.bricks@[k] == old(state).bricks@[k],
            forall|k: int|
                0 <= k < j ==> crate::geom::v2_within(
                    (#[trigger] state.bricks@[k]).pos,
                    POS_LIMIT as int,
                ),
            state.players@.len() == old(state).players@.len(),
            forall|k: int|
                0 <= k < state.players@.len() ==> (#[trigger] state.players@[k])@
                    == integrate_player(old(state).players@[k]@),
            forall|k: int|
                0 <= k < state.players@.len() ==> crate::geom::v2_within(
                    (#[trigger] state.players@[k]).pos,
                    POS_LIMIT as int,
                ),
            state.ceiling == old(state).ceiling,
            state.scoreboard == old(state).scoreboard,
            state.score_timer == old(state).score_timer,
            state.bounds == old(state).bounds,
            state.next_entity == old(state).next_entity,
        decreases nb - j,
    {
        let b = &mut state.bricks[j];
        b.pos = Vec2i { x: b.pos.x + b.velocity.x, y: b.pos.y + b.velocity.y };
        j += 1;
    }
}

/// What the wall recycler makes of one brick: a drifting wall segment
/// within one drift step above its target height teleports back to its
/// restore position.
pub open spec fn wall_reset_brick(b: Brick) -> Brick {
    match b.kind {
        BrickKind::Wall { reset: Some(r) } => if 0 <= b.pos.y - r.target_y
            <= crate::constants::BRICK_DRIFT_SPEED as int {
            Brick { pos: r.restore_position, ..b }
        } else {
            b
        },
        _ => b,
    }
}

/// Teleports each wall segment that has risen to its target back to its
/// restore position, keeping the two segments of each side alternating.
#[verifier::loop_isolation(false)]
pub fn wall_reset_position_system(state: &mut GameState)
    requires
        old(state).wf(),
        old(state).positions_within(POS_LIMIT as int),
    ensures
        final(state).wf(),
        final(state).positions_within(POS_LIMIT as int),
        final(state).bricks@.len() == old(state).bricks@.len(),
        forall|i: int|
            0 <= i < old(state).bricks@.len() ==> #[trigger] final(state).bricks@[i]
                == wall_reset_brick(old(state).bricks@[i]),
        final(state).players == old(state).players,
        final(state).ceiling == old(state).ceiling,
        final(state).scoreboard == old(state).scoreboard,
        final(state).score_timer == old(state).score_timer,
        final(state).bounds == old(state).bounds,
        final(state).next_entity == old(state).next_entity,
{
    let nb = state.bricks.len();
    let mut j: usize = 0;
    while j < nb
        invariant
            j <= nb,
            state.bricks@.len() == old(state).bricks@.len(),
            nb == state.bricks@.len(),
            forall|k: int|
                0 <= k < j ==> #[trigger] state.bricks@[k] == wall_reset_brick(
                    old(state).bricks@[k],
                ),
            forall|k: int| j <= k < nb ==> state.bricks@[k] == old(state).bricks@[k],
            forall|k: int|
                0 <= k < j ==> crate::geom::v2_within(
                    (#[trigger] state.bricks@[k]).pos,
                    POS_LIMIT as int,
                ),
            state.players == old(state).players,
            state.ceiling == old(state).ceiling,
            state.scoreboard == old(state).scoreboard,
            state.score_timer == old(state).score_timer,
            state.bounds == old(state).bounds,
            state.next_entity == old(state).next_entity,
        decreases nb - j,
    {
        let b = &state.bricks[j];
        if let BrickKind::Wall { reset: Some(r) } = b.kind {
            let diff_y = b.pos.y - r.target_y;
            if diff_y >= 0 && diff_y <= crate::constants::BRICK_DRIFT_SPEED {
                let bm = &mut state.bricks[j];
                bm.pos = r.restore_position;
            }
        }
        j += 1;
    }
}

/// The collision resolver, run once per tick after integration.  For
/// each scanned player it re-establishes the fall speed, tests the
/// player's box against every active collider in brick order, applies
/// the side-classified corrections, rebuilds the contact list in full,
/// and emits the tick's collision and trigger-enter events; the returned
/// queue holds them in scan order.
#[verifier::loop_isolation(false)]
pub fn player_collision_system(state: &mut GameState) -> (ev: TickEvents)
    requires
        old(state).wf(),
        old(state).positions_within(POS_LIMIT as int),
    ensures
        final(state).wf(),
        final(state).players@.len() == old(state).players@.len(),
        forall|i: int|
            0 <= i < old(state).players@.len() ==> (#[trigger] final(state).players@[i])@
                == resolve_player(old(state).players@[i]@, old(state).bricks@),
        final(state).bricks == old(state).bricks,
        final(state).ceiling == old(state).ceiling,
        final(state).scoreboard == old(state).scoreboard,
        final(state).score_timer == old(state).score_timer,
        final(state).bounds == old(state).bounds,
        final(state).next_entity == old(state).next_entity,
        ev@ == resolver_events(
            old(state).players@.map_values(|p: Player| p@),
            old(state).bricks@,
        ),
{
    let ghost players0 = old(state).players@;
    let ghost bricks0 = old(state).bricks@;
    let ghost pviews = players0.map_values(|p: Player| p@);
    let mut ev = TickEvents::new();
    proof {
        assert(ev@ =~= resolver_events(pviews.take(0), bricks0));
    }
    let np = state.players.len();
    let mut i: usize = 0;
    while i < np
        invariant
            i <= np,
            np == players0.len(),
            state.players@.len() == players0.len(),
            pviews == players0.map_values(|p: Player| p@),
            state.wf(),
            forall|k: int|
                0 <= k < i ==> (#[trigger] state.players@[k])@ == resolve_player(
                    pviews[k],
                    bricks0,
                ),
            forall|k: int| i <= k < np ==> state.players@[k] == players0[k],
            state.bricks == old(state).bricks,
            state.bricks@ == bricks0,
            state.ceiling == old(state).ceiling,
            state.scoreboard == old(state).scoreboard,
            state.score_timer == old(state).score_timer,
            state.bounds == old(state).bounds,
            state.next_entity == old(state).next_entity,
            ev@ == resolver_events(pviews.take(i as int), bricks0),
        decreases np - i,
    {
        let ghost pv = pviews[i as int];
        proof {
            assert(state.players@[i as int] == players0[i as int]);
            assert(pv == players0[i as int]@);
            assert(pviews.take(i + 1).drop_last() =~= pviews.take(i as int));
        }
        let skip = state.players[i].dead || !matches!(
            state.players[i].ceiling_hurt,
            crate::player::CeilingHurtState::Clear,
        );
        if skip {
            proof {
                assert(resolver_skips(pv));
                assert(ev@ =~= events_concat(ev@, empty_events()));
                assert(ev@ =~= resolver_events(pviews.take(i + 1), bricks0));
            }
        } else if matches!(state.players[i].jump, JumpState::Jumping { .. }) {
            let pm = &mut state.players[i];
            pm.velocity = Vec2i { x: pm.velocity.x, y: JUMP_SPEED };
            proof {
                assert(state.players@[i as int]@ =~= (PlayerView {
                    vy: JUMP_SPEED as int,
                    ..pv
                }));
                assert(state.players@[i as int]@ == resolve_player(pv, bricks0));
                assert(ev@ =~= events_concat(ev@, empty_events()));
                assert(ev@ =~= resolver_events(pviews.take(i + 1), bricks0));
            }
        } else {
            let pid = state.players[i].id;
            let px0 = state.players[i].pos.x;
            let py0 = state.players[i].pos.y;
            let a_col = state.players[i].collider;
            let a_tx = px0 + a_col.center.x;
            let a_ty = py0 + a_col.center.y;
            let mut px = px0;
            let mut py = py0;
            let mut vx = state.players[i].velocity.x;
            let mut vy: i64 = -FALL_SPEED;
            let mut hit_ids: Vec<u64> = Vec::new();
            let mut hit_sides: Vec<Side> = Vec::new();
            let ghost abox = player_box(pv);
            let ghost last0 = pv.lc_ids;
            let ghost ev_pre = ev@;
            let nb = state.bricks.len();
            let mut j: usize = 0;
            proof {
                assert(scan_bricks(init_scan(pv), abox, bricks0.take(0), last0, pid) == init_scan(
                    pv,
                ));
            }
            while j < nb
                invariant
                    j <= nb,
                    nb == bricks0.len(),
                    state.bricks@ == bricks0,
                    state.players@.len() == players0.len(),
                    i < np,
                    np == players0.len(),
                    forall|k: int| i <= k < np ==> state.players@[k] == players0[k],
                    pid == pv.id,
                    a_col == pv.collider,
                    px0 as int == pv.px,
                    py0 as int == pv.py,
                    a_tx as int == abox.x,
                    a_ty as int == abox.y,
                    abox == player_box(pv),
                    last0 == pv.lc_ids,
                    ({
                        let acc = scan_bricks(init_scan(pv), abox, bricks0.take(j as int), last0, pid);
                        &&& px as int == acc.px
                        &&& py as int == acc.py
                        &&& vx as int == acc.vx
                        &&& vy as int == acc.vy
                        &&& hit_ids@ == acc.hit_ids
                        &&& hit_sides@ == acc.hit_sides
                        &&& ev@ == events_concat(ev_pre, acc.events)
                    }),
                    hit_ids@.len() == hit_sides@.len(),
                    crate::brick::small_ok(vx as int),
                    crate::brick::small_ok(vy as int),
                    ev_pre == resolver_events(pviews.take(i as int), bricks0),
                decreases nb - j,
            {
                let ghost acc = scan_bricks(init_scan(pv), abox, bricks0.take(j as int), last0, pid);
                proof {
                    assert(bricks0.take(j + 1).drop_last() =~= bricks0.take(j as int));
                    assert(bricks0.take(j + 1).last() == bricks0[j as int]);
                    assert(old(state).bricks@[j as int].wf());
                }
                let bid = state.bricks[j].id;
                let b_col = state.bricks[j].collider;
                let b_pos = state.bricks[j].pos;
                let b_kind = state.bricks[j].kind;
                let active = !matches!(
                    b_kind,
                    BrickKind::Fake { phase: crate::brick::FakePhase::Flipping { .. } },
                );
                if active {
                    let b_tx = b_pos.x + b_col.center.x;
                    let b_ty = b_pos.y + b_col.center.y;
                    let c = overlap(
                        Vec2i { x: a_tx, y: a_ty },
                        a_col.size,
                        Vec2i { x: b_tx, y: b_ty },
                        b_col.size,
                    );
                    if let Some(side) = c {
                        match side {
                            Side::Left => if vx > 0 {
                                vx = 0;
                                px = b_tx - b_col.size.x / 2 - a_col.size.x / 2;
                            },
                            Side::Right => if vx < 0 {
                                vx = 0;
                                px = b_tx + b_col.size.x / 2 + a_col.size.x / 2;
                            },
                            Side::Top => if vy < 0 {
                                vy = 0;
                                py = b_ty + b_col.size.y / 2 + a_col.size.y / 2;
                            },
                            Side::Bottom => if vy > 0 {
                                vy = 0;
                                py = b_ty - b_col.size.y / 2 - a_col.size.y / 2;
                            },
                            Side::Inside => {},
                        }
                        hit_ids.push(bid);
                        hit_sides.push(side);
                        ev.collisions.push(
                            CollisionEvent {
                                a: pid,
                                b: bid,
                                collision: side,
                                a_is_player: true,
                                b_is_player: false,
                            },
                        );
                        let enter = !contains_id(
                            &state.players[i].last_collisions.entities,
                            bid,
                        );
                        if enter {
                            let te = TriggerEvent { myself: bid, other: pid, collision: side };
                            match b_kind {
                                BrickKind::Normal => ev.normal_triggers.push(
                                    NormalBrickTriggerEnterEvent(te),
                                ),
                                BrickKind::Fake { .. } => ev.fake_triggers.push(
                                    FakeBrickTriggerEnterEvent(te),
                                ),
                                BrickKind::Spring { .. } => ev.spring_triggers.push(
                                    SpringBrickTriggerEnterEvent(te),
                                ),
                                BrickKind::Conveyor { .. } => ev.conveyor_triggers.push(
                                    ConveyorBrickTriggerEnterEvent(te),
                                ),
                                _ => {},
                            }
                        }
                        proof {
                            let acc2 = scan_bricks(
                                init_scan(pv),
                                abox,
                                bricks0.take(j + 1),
                                last0,
                                pid,
                            );
                            assert(ev@ =~= events_concat(ev_pre, acc2.events));
                        }
                    }
                }
                proof {
                    let acc2 = scan_bricks(init_scan(pv), abox, bricks0.take(j + 1), last0, pid);
                    assert(hit_ids@ =~= acc2.hit_ids);
                    assert(hit_sides@ =~= acc2.hit_sides);
                    assert(ev@ =~= events_concat(ev_pre, acc2.events));
                }
                j += 1;
            }
            proof {
                assert(bricks0.take(nb as int) =~= bricks0);
            }
            let pm = &mut state.players[i];
            pm.pos = Vec2i { x: px, y: py };
            pm.velocity = Vec2i { x: vx, y: vy };
            pm.last_collisions = LastCollisions { entities: hit_ids, collisions: hit_sides };
            proof {
                let acc = scan_of(pv, bricks0);
                assert(state.players@[i as int]@ =~= (PlayerView {
                    px: acc.px,
                    py: acc.py,
                    vx: acc.vx,
                    vy: acc.vy,
                    lc_ids: acc.hit_ids,
                    lc_sides: acc.hit_sides,
                    ..pv
                }));
                assert(state.players@[i as int]@ == resolve_player(pv, bricks0));
                assert(ev@ =~= events_concat(
                    resolver_events(pviews.take(i as int), bricks0),
                    player_events(pv, bricks0),
                ));
                assert(ev@ =~= resolver_events(pviews.take(i + 1), bricks0));
            }
        }
        i += 1;
    }
    proof {
        assert(pviews.take(np as int) =~= pviews);
    }
    ev
}

} // verus!
