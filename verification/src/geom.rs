//! Axis-aligned boxes and the overlap test that classifies the side of
//! minimum penetration.

use vstd::prelude::*;
use crate::constants::{POS_LIMIT, SIZE_LIMIT};

verus! {

/// A two-dimensional integer vector, used for positions, velocities,
/// collider extents and collider offsets.
#[derive(Clone, Copy, Debug, PartialEq, Eq, Structural)]
pub struct Vec2i {
    pub x: i64,
    pub y: i64,
}

impl Vec2i {
    pub fn new(x: i64, y: i64) -> (r: Vec2i)
        ensures
            r == (Vec2i { x, y }),
    {
        Vec2i { x, y }
    }

    pub open spec fn zero_spec() -> Vec2i {
        Vec2i { x: 0, y: 0 }
    }

    pub fn zero() -> (r: Vec2i)
        ensures
            r == Vec2i::zero_spec(),
    {
        Vec2i { x: 0, y: 0 }
    }
}

/// The side of the second box on which the first box penetrates least:
/// `Top` means the first box overlaps the second from above, and so on;
/// `Inside` is the degenerate case in which neither axis shows a strict
/// one-sided crossing.
#[derive(Clone, Copy, Debug, PartialEq, Eq, Structural)]
pub enum Side {
    Left,
    Right,
    Top,
    Bottom,
    Inside,
}

/// An axis-aligned collider: a full `size` and a `center` offset relative
/// to the owning entity's position.  The effective world box is the
/// entity's position plus `center`, extended by half of `size` on each
/// side.
#[derive(Clone, Copy, Debug, PartialEq, Eq, Structural)]
pub struct BoxCollider {
    pub size: Vec2i,
    pub center: Vec2i,
}

/// A world-space box for specification purposes: a center point and a full
/// width and height, as unbounded integers.
pub ghost struct GBox {
    pub x: int,
    pub y: int,
    pub w: int,
    pub h: int,
}

/// The world box described by a center translation and a full size.
pub open spec fn gbox_of(pos: Vec2i, size: Vec2i) -> GBox {
    GBox { x: pos.x as int, y: pos.y as int, w: size.x as int, h: size.y as int }
}

/// The same box shifted by a vector.
pub open spec fn gbox_shift(b: GBox, dx: int, dy: int) -> GBox {
    GBox { x: b.x + dx, y: b.y + dy, w: b.w, h: b.h }
}

pub open spec fn box_min_x(b: GBox) -> int {
    b.x - b.w / 2
}

pub open spec fn box_max_x(b: GBox) -> int {
    b.x + b.w / 2
}

pub open spec fn box_min_y(b: GBox) -> int {
    b.y - b.h / 2
}

pub open spec fn box_max_y(b: GBox) -> int {
    b.y + b.h / 2
}

/// Two boxes are disjoint when they share no interior point: the negation
/// of a strict open-interval intersection on both axes.
pub open spec fn boxes_disjoint(a: GBox, b: GBox) -> bool {
    !(box_min_x(a) < box_max_x(b) && box_max_x(a) > box_min_x(b) && box_min_y(a) < box_max_y(b)
        && box_max_y(a) > box_min_y(b))
}

/// Horizontal classification: `a` crossing `b`'s left edge only yields
/// `Left` with its penetration depth, crossing the right edge only yields
/// `Right`; straddling or being contained yields no one-sided crossing.
pub open spec fn x_classify(a: GBox, b: GBox) -> Option<(Side, int)> {
    if box_min_x(a) < box_min_x(b) && box_max_x(a) > box_min_x(b) && box_max_x(a) < box_max_x(b) {
        Some((Side::Left, box_max_x(a) - box_min_x(b)))
    } else if box_min_x(a) > box_min_x(b) && box_min_x(a) < box_max_x(b) && box_max_x(a)
        > box_max_x(b) {
        Some((Side::Right, box_max_x(b) - box_min_x(a)))
    } else {
        None
    }
}

/// Vertical classification, mirroring `x_classify`: crossing `b`'s bottom
/// edge only yields `Bottom`, crossing its top edge only yields `Top`.
pub open spec fn y_classify(a: GBox, b: GBox) -> Option<(Side, int)> {
    if box_min_y(a) < box_min_y(b) && box_max_y(a) > box_min_y(b) && box_max_y(a) < box_max_y(b) {
        Some((Side::Bottom, box_max_y(a) - box_min_y(b)))
    } else if box_min_y(a) > box_min_y(b) && box_min_y(a) < box_max_y(b) && box_max_y(a)
        > box_max_y(b) {
        Some((Side::Top, box_max_y(b) - box_min_y(a)))
    } else {
        None
    }
}

/// Side of minimum penetration of box `a` into box `b`: `None` when the
/// boxes are disjoint; otherwise the axis of strictly smaller penetration
/// depth wins, with the horizontal side preferred on ties, and `Inside`
/// when neither axis shows a one-sided crossing.  The tie-break towards
/// horizontal sides is a documented policy of the simulation.
pub open spec fn overlap_spec(a: GBox, b: GBox) -> Option<Side> {
    if boxes_disjoint(a, b) {
        None
    } else {
        match (x_classify(a, b), y_classify(a, b)) {
            (Some(xc), Some(yc)) => if yc.1 < xc.1 {
                Some(yc.0)
            } else {
                Some(xc.0)
            },
            (Some(xc), None) => Some(xc.0),
            (None, Some(yc)) => Some(yc.0),
            (None, None) => Some(Side::Inside),
        }
    }
}

/// Both components bounded in magnitude by `limit`.
pub open spec fn v2_within(v: Vec2i, limit: int) -> bool {
    -limit <= v.x as int <= limit && -limit <= v.y as int <= limit
}

/// A world translation (an entity position already combined with a
/// collider offset) that box arithmetic keeps within `i64`.
pub open spec fn translation_ok(v: int) -> bool {
    -2 * (POS_LIMIT as int) <= v <= 2 * (POS_LIMIT as int)
}

/// A collider extent: non-negative, bounded, and even so that its half is
/// exact.
pub open spec fn extent_ok(v: int) -> bool {
    0 <= v <= SIZE_LIMIT as int && v % 2 == 0
}

pub open spec fn gbox_ok(b: GBox) -> bool {
    translation_ok(b.x) && translation_ok(b.y) && extent_ok(b.w) && extent_ok(b.h)
}

/// Overlap test between the box at `a_pos` of size `a_size` and the box at
/// `b_pos` of size `b_size`, returning the side of `b` that `a` penetrates
/// least, or `None` when they are disjoint.
pub fn overlap(a_pos: Vec2i, a_size: Vec2i, b_pos: Vec2i, b_size: Vec2i) -> (r: Option<Side>)
    requires
        gbox_ok(gbox_of(a_pos, a_size)),
        gbox_ok(gbox_of(b_pos, b_size)),
    ensures
        r == overlap_spec(gbox_of(a_pos, a_size), gbox_of(b_pos, b_size)),
{
    let a_min_x = a_pos.x - a_size.x / 2;
    let a_max_x = a_pos.x + a_size.x / 2;
    let a_min_y = a_pos.y - a_size.y / 2;
    let a_max_y = a_pos.y + a_size.y / 2;
    let b_min_x = b_pos.x - b_size.x / 2;
    let b_max_x = b_pos.x + b_size.x / 2;
    let b_min_y = b_pos.y - b_size.y / 2;
    let b_max_y = b_pos.y + b_size.y / 2;

    if !(a_min_x < b_max_x && a_max_x > b_min_x && a_min_y < b_max_y && a_max_y > b_min_y) {
        return None;
    }

    let x_side: Option<(Side, i64)> = if a_min_x < b_min_x && a_max_x > b_min_x && a_max_x
        < b_max_x {
        Some((Side::Left, a_max_x - b_min_x))
    } else if a_min_x > b_min_x && a_min_x < b_max_x && a_max_x > b_max_x {
        Some((Side::Right, b_max_x - a_min_x))
    } else {
        None
    };

    let y_side: Option<(Side, i64)> = if a_min_y < b_min_y && a_max_y > b_min_y && a_max_y
        < b_max_y {
        Some((Side::Bottom, a_max_y - b_min_y))
    } else if a_min_y > b_min_y && a_min_y < b_max_y && a_max_y > b_max_y {
        Some((Side::Top, b_max_y - a_min_y))
    } else {
        None
    };

    match (x_side, y_side) {
        (Some(xc), Some(yc)) => if yc.1 < xc.1 {
            Some(yc.0)
        } else {
            Some(xc.0)
        },
        (Some(xc), None) => Some(xc.0),
        (None, Some(yc)) => Some(yc.0),
        (None, None) => Some(Side::Inside),
    }
}

/// The world-space center of an entity's collider: the entity's position
/// plus the collider's center offset.
pub fn get_collider_translation(position: Vec2i, collider: &BoxCollider) -> (r: Vec2i)
    requires
        -(POS_LIMIT as int) <= position.x <= POS_LIMIT as int,
        -(POS_LIMIT as int) <= position.y <= POS_LIMIT as int,
        -(SIZE_LIMIT as int) <= collider.center.x <= SIZE_LIMIT as int,
        -(SIZE_LIMIT as int) <= collider.center.y <= SIZE_LIMIT as int,
    ensures
        r.x == position.x + collider.center.x,
        r.y == position.y + collider.center.y,
{
    Vec2i { x: position.x + collider.center.x, y: position.y + collider.center.y }
}

/// The world-space size of an entity's collider.  Entities carry no
/// scale here, so this is the collider's own extent.
pub fn get_collider_size(collider: &BoxCollider) -> (r: Vec2i)
    ensures
        r == collider.size,
{
    collider.size
}

/// Boxes with zero overlap, and only those, classify as `None`.
pub proof fn lemma_overlap_none_iff_disjoint(a: GBox, b: GBox)
    ensures
        overlap_spec(a, b) is None <==> boxes_disjoint(a, b),
{
}

/// Shifting both boxes by one common vector does not change the overlap
/// classification.
pub proof fn lemma_overlap_translation_invariant(a: GBox, b: GBox, dx: int, dy: int)
    ensures
        overlap_spec(gbox_shift(a, dx, dy), gbox_shift(b, dx, dy)) == overlap_spec(a, b),
{
}

} // verus!
