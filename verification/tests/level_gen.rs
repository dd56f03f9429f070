use shaft_core::brick::ConveyorDirection;
use shaft_core::level::{generate_level, BrickPlacement, BrickType};

/// Running the generator twice with the seed set (5, 3, 4) produces
/// identical brick-type and position sequences for 500 bricks.
#[test]
fn replay_with_same_seeds_is_identical() {
    let a = generate_level(5, 3, 4, 540, 960, 500);
    let b = generate_level(5, 3, 4, 540, 960, 500);
    assert_eq!(a.len(), 500);
    assert_eq!(b.len(), 500);
    for i in 0..500 {
        assert_eq!(a[i], b[i]);
    }
}

#[test]
fn different_seeds_give_a_different_layout() {
    let a = generate_level(5, 3, 4, 540, 960, 500);
    let c = generate_level(6, 3, 4, 540, 960, 500);
    assert!(a.iter().zip(c.iter()).any(|(x, y)| x != y));
}

/// The generator must reproduce, draw for draw, what three persistent
/// seeded generators of the outside crate produce: one stream for the
/// horizontal offset, one for the kind, one for conveyor directions.
#[test]
fn matches_persistent_outside_generators() {
    let width: i32 = 540;
    let height: i32 = 960;
    let min_x = -(width / 2) + 50;
    let max_x = width / 2 - 50;
    let max_y = height / 2;

    let pos_rng = fastrand::Rng::with_seed(5);
    let brick_type_rng = fastrand::Rng::with_seed(3);
    let conveyor_dir_rng = fastrand::Rng::with_seed(4);

    let got = generate_level(5, 3, 4, width, height, 500);
    assert_eq!(got.len(), 500);

    for i in 0..500i32 {
        let x = pos_rng.i32(min_x..max_x);
        let n = brick_type_rng.u32(1..=100);
        let kind = if n <= 50 {
            BrickType::Normal
        } else if n <= 60 {
            BrickType::Fake
        } else if n <= 80 {
            BrickType::Nails
        } else if n <= 90 {
            BrickType::Conveyor
        } else {
            BrickType::Spring
        };
        let direction = if kind == BrickType::Conveyor {
            Some(if conveyor_dir_rng.bool() {
                ConveyorDirection::Left
            } else {
                ConveyorDirection::Right
            })
        } else {
            None
        };
        let expected = BrickPlacement {
            x,
            y: max_y - i * 55,
            kind,
            direction,
        };
        assert_eq!(got[i as usize], expected);
    }
}

#[test]
fn placements_stay_inside_the_margins() {
    let got = generate_level(9, 9, 9, 540, 960, 500);
    for (i, p) in got.iter().enumerate() {
        assert!(p.x >= -220 && p.x < 220);
        assert_eq!(p.y, 480 - (i as i32) * 55);
        if p.kind == BrickType::Conveyor {
            assert!(p.direction.is_some());
        } else {
            assert!(p.direction.is_none());
        }
    }
}
