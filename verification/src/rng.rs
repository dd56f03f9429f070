//! Seeded pseudo-random draws for level generation.  The library holds a
//! generator's state as a plain `u64` seed; each draw hands the state to
//! the outside generator and takes the advanced state back, so that a
//! whole generated level is a function of the initial seeds alone —
//! which is what makes layouts reproducible for replay and networked
//! play.

use vstd::prelude::*;

verus! {

/// The state and value that one inclusive-range `u32` draw of the
/// outside generator produces from a state and the bounds.
pub uninterp spec fn wyrand_u32_inclusive(state: u64, lo: u32, hi: u32) -> (u64, u32);

/// The state and value that one exclusive-range `i32` draw of the
/// outside generator produces from a state and the bounds.
pub uninterp spec fn wyrand_i32_exclusive(state: u64, lo: i32, hi: i32) -> (u64, i32);

/// The state and value that one boolean draw of the outside generator
/// produces from a state.
pub uninterp spec fn wyrand_bool(state: u64) -> (u64, bool);

/// Relies on fastrand 1.9's `Rng::with_seed`, `Rng::u32` and
/// `Rng::get_seed`: `with_seed` stores exactly the given state,
/// `u32(lo..=hi)` draws a value within the inclusive range and advances
/// the state, and both results depend on the state and the bounds alone.
#[verifier::external_body]
pub(crate) fn draw_u32_inclusive(state: u64, lo: u32, hi: u32) -> (r: (u64, u32))
    requires
        lo <= hi,
    ensures
        r == wyrand_u32_inclusive(state, lo, hi),
        lo <= r.1 <= hi,
{
    let rng = fastrand::Rng::with_seed(state);
    let v = rng.u32(lo..=hi);
    (rng.get_seed(), v)
}

/// Relies on fastrand 1.9's `Rng::with_seed`, `Rng::i32` and
/// `Rng::get_seed`: `i32(lo..hi)` draws a value within the half-open
/// range — which must not be empty, or the call panics — and advances
/// the state; both results depend on the state and the bounds alone.
#[verifier::external_body]
pub(crate) fn draw_i32_exclusive(state: u64, lo: i32, hi: i32) -> (r: (u64, i32))
    requires
        lo < hi,
    ensures
        r == wyrand_i32_exclusive(state, lo, hi),
        lo <= r.1 < hi,
{
    let rng = fastrand::Rng::with_seed(state);
    let v = rng.i32(lo..hi);
    (rng.get_seed(), v)
}

/// Relies on fastrand 1.9's `Rng::with_seed`, `Rng::bool` and
/// `Rng::get_seed`: `bool()` draws one boolean and advances the state;
/// both results depend on the state alone.
#[verifier::external_body]
pub(crate) fn draw_bool(state: u64) -> (r: (u64, bool))
    ensures
        r == wyrand_bool(state),
{
    let rng = fastrand::Rng::with_seed(state);
    let v = rng.bool();
    (rng.get_seed(), v)
}

} // verus!
