//! Selection of the player's animation from steering direction and status.
//! The presentation layer owns frame tables and playback; the simulation
//! only decides which animation is current.

use vstd::prelude::*;
use crate::geom::Vec2i;

verus! {

/// The player animations the presentation layer can play.
#[derive(Clone, Copy, Debug, PartialEq, Eq, Structural)]
pub enum PlayerAnimation {
    Idle,
    LeftRun,
    RightRun,
    HurtIdle,
    HurtLeftRun,
    HurtRightRun,
    FlyIdle,
    FlyLeftRun,
    FlyRightRun,
    FlyHurtIdle,
    FlyHurtLeftRun,
    FlyHurtRightRun,
}

/// The animation selected for a steering direction and the flying and
/// damaging statuses: rightward steering picks the right-run family,
/// leftward the left-run family, a zero vector the idle family, and any
/// other direction keeps the current animation.
pub open spec fn next_animation_spec(
    current: PlayerAnimation,
    direction: Vec2i,
    is_flying: bool,
    is_damaging: bool,
) -> PlayerAnimation {
    if direction.x > 0 {
        if is_damaging && is_flying {
            PlayerAnimation::FlyHurtRightRun
        } else if is_damaging {
            PlayerAnimation::HurtRightRun
        } else if is_flying {
            PlayerAnimation::FlyRightRun
        } else {
            PlayerAnimation::RightRun
        }
    } else if direction.x < 0 {
        if is_damaging && is_flying {
            PlayerAnimation::FlyHurtLeftRun
        } else if is_damaging {
            PlayerAnimation::HurtLeftRun
        } else if is_flying {
            PlayerAnimation::FlyLeftRun
        } else {
            PlayerAnimation::LeftRun
        }
    } else if direction.x == 0 && direction.y == 0 {
        if is_damaging && is_flying {
            PlayerAnimation::FlyHurtIdle
        } else if is_damaging {
            PlayerAnimation::HurtIdle
        } else if is_flying {
            PlayerAnimation::FlyIdle
        } else {
            PlayerAnimation::Idle
        }
    } else {
        current
    }
}

/// Picks the next player animation from the steering direction and the
/// flying and damaging statuses.
pub fn get_next_animation(
    current_animation: PlayerAnimation,
    direction: Vec2i,
    is_flying: bool,
    is_damaging: bool,
) -> (r: PlayerAnimation)
    ensures
        r == next_animation_spec(current_animation, direction, is_flying, is_damaging),
{
    if direction.x > 0 {
        if is_damaging && is_flying {
            PlayerAnimation::FlyHurtRightRun
        } else if is_damaging {
            PlayerAnimation::HurtRightRun
        } else if is_flying {
            PlayerAnimation::FlyRightRun
        } else {
            PlayerAnimation::RightRun
        }
    } else if direction.x < 0 {
        if is_damaging && is_flying {
            PlayerAnimation::FlyHurtLeftRun
        } else if is_damaging {
            PlayerAnimation::HurtLeftRun
        } else if is_flying {
            PlayerAnimation::FlyLeftRun
        } else {
            PlayerAnimation::LeftRun
        }
    } else if direction.x == 0 && direction.y == 0 {
        if is_damaging && is_flying {
            PlayerAnimation::FlyHurtIdle
        } else if is_damaging {
            PlayerAnimation::HurtIdle
        } else if is_flying {
            PlayerAnimation::FlyIdle
        } else {
            PlayerAnimation::Idle
        }
    } else {
        current_animation
    }
}

} // verus!
