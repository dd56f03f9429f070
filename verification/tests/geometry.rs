use shaft_core::geom::{overlap, BoxCollider, Side, Vec2i};

fn v(x: i64, y: i64) -> Vec2i {
    Vec2i { x, y }
}

#[test]
fn disjoint_boxes_classify_none() {
    // Far apart on x.
    assert_eq!(overlap(v(0, 0), v(64, 64), v(1000, 0), v(64, 64)), None);
    // Far apart on y.
    assert_eq!(overlap(v(0, 0), v(64, 64), v(0, -500), v(190, 32)), None);
    // Exactly touching edges share no interior point.
    assert_eq!(overlap(v(0, 0), v(64, 64), v(64, 0), v(64, 64)), None);
}

#[test]
fn disjointness_is_translation_invariant() {
    let cases = [
        (v(0, 0), v(64, 64), v(1000, 0), v(64, 64)),
        (v(0, 46), v(64, 64), v(0, 0), v(190, 32)),
        (v(-10, 3), v(32, 32), v(5, -4), v(20, 60)),
    ];
    for (ap, asz, bp, bsz) in cases {
        let base = overlap(ap, asz, bp, bsz);
        for (dx, dy) in [(13i64, -7i64), (-250, 40), (1000, 1000)] {
            let shifted = overlap(
                v(ap.x + dx, ap.y + dy),
                asz,
                v(bp.x + dx, bp.y + dy),
                bsz,
            );
            assert_eq!(base, shifted);
        }
    }
}

#[test]
fn landing_from_above_classifies_top() {
    // Player box 64x64 straddling the top edge of a 190x32 brick.
    let r = overlap(v(0, 46), v(64, 64), v(0, 0), v(190, 32));
    assert_eq!(r, Some(Side::Top));
}

#[test]
fn rising_into_a_brick_classifies_bottom() {
    let r = overlap(v(0, -46), v(64, 64), v(0, 0), v(190, 32));
    assert_eq!(r, Some(Side::Bottom));
}

#[test]
fn sideways_contact_classifies_left_and_right() {
    // Player pushing its right edge into the brick's left side.
    assert_eq!(
        overlap(v(-120, 0), v(64, 64), v(0, 0), v(190, 64)),
        Some(Side::Left)
    );
    // Player pushing its left edge into the brick's right side.
    assert_eq!(
        overlap(v(120, 0), v(64, 64), v(0, 0), v(190, 64)),
        Some(Side::Right)
    );
}

#[test]
fn equal_penetration_prefers_horizontal() {
    // Same-size boxes offset equally on both axes: depths tie, and the
    // documented policy picks the horizontal side.
    let r = overlap(v(-30, 30), v(64, 64), v(0, 0), v(64, 64));
    assert_eq!(r, Some(Side::Left));
}

#[test]
fn containment_classifies_inside() {
    let r = overlap(v(0, 0), v(32, 32), v(0, 0), v(190, 190));
    assert_eq!(r, Some(Side::Inside));
}

#[test]
fn new_player_collider_is_the_canonical_square() {
    let c = BoxCollider::new_player_collider();
    assert_eq!(c.size, v(64, 64));
    assert_eq!(c.center, v(0, 0));
}
