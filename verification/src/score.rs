//! Scoring: the shared counter ticks up on a fixed interval while at
//! least one player is alive, and each living player's own score mirrors
//! it at increment time.

use vstd::prelude::*;
use crate::constants::SCORE_INTERVAL_TICKS;
use crate::player::{Player, PlayerScore, PlayerView};
use crate::state::{GameState, ScoreTimer, Scoreboard};

verus! {

/// Whether any player is alive.
pub open spec fn any_alive(players: Seq<PlayerView>) -> bool {
    exists|i: int| 0 <= i < players.len() && !(#[trigger] players[i]).dead
}

/// What the score pass makes of one player once the interval has
/// elapsed and the shared counter stands at `new_score`: each living
/// player mirrors it.
pub open spec fn score_step_player(p: PlayerView, new_score: u64) -> PlayerView {
    if p.dead {
        p
    } else {
        PlayerView { score: new_score, ..p }
    }
}

/// Counts the score interval down; when it elapses, the timer restarts
/// and, if at least one player is alive, the shared counter ticks up and
/// every living player mirrors it.
#[verifier::loop_isolation(false)]
pub fn add_score(state: &mut GameState)
    requires
        old(state).wf(),
        old(state).scoreboard.score < u64::MAX,
    ensures
        final(state).wf(),
        final(state).players@.len() == old(state).players@.len(),
        ({
            let ticked = old(state).score_timer.ticks_left <= 1;
            let alive = any_alive(old(state).players@.map_values(|p: Player| p@));
            let bump = ticked && alive;
            let new_score = if bump {
                (old(state).scoreboard.score + 1) as u64
            } else {
                old(state).scoreboard.score
            };
            &&& final(state).score_timer == (ScoreTimer {
                ticks_left: if ticked {
                    SCORE_INTERVAL_TICKS as u32
                } else {
                    (old(state).score_timer.ticks_left - 1) as u32
                },
            })
            &&& final(state).scoreboard == (Scoreboard { score: new_score })
            &&& forall|i: int|
                0 <= i < old(state).players@.len() ==> (#[trigger] final(state).players@[i])@ == (
                if bump {
                    score_step_player(old(state).players@[i]@, new_score)
                } else {
                    old(state).players@[i]@
                })
        }),
        final(state).bricks == old(state).bricks,
        final(state).ceiling == old(state).ceiling,
        final(state).bounds == old(state).bounds,
        final(state).next_entity == old(state).next_entity,
{
    let ghost players0 = old(state).players@;
    if state.score_timer.ticks_left > 1 {
        state.score_timer.ticks_left = state.score_timer.ticks_left - 1;
        return ;
    }
    state.score_timer.ticks_left = SCORE_INTERVAL_TICKS;
    let mut alive = false;
    let np = state.players.len();
    let mut i: usize = 0;
    while i < np
        invariant
            i <= np,
            np == players0.len(),
            state.players@ == players0,
            alive == exists|k: int| 0 <= k < i && !(#[trigger] players0[k]@).dead,
        decreases np - i,
    {
        if !state.players[i].dead {
            alive = true;
            proof {
                assert(!players0[i as int]@.dead);
            }
        }
        i += 1;
    }
    proof {
        assert(alive == any_alive(players0.map_values(|p: Player| p@))) by {
            let views = players0.map_values(|p: Player| p@);
            if alive {
                let k = choose|k: int| 0 <= k < np && !(#[trigger] players0[k]@).dead;
                assert(!views[k].dead);
            } else {
                assert forall|k: int| 0 <= k < views.len() implies (#[trigger] views[k]).dead by {
                    assert(views[k] == players0[k]@);
                }
            }
        }
    }
    if !alive {
        return ;
    }
    let new_score = state.scoreboard.score + 1;
    state.scoreboard.score = new_score;
    let mut j: usize = 0;
    while j < np
        invariant
            j <= np,
            np == players0.len(),
            state.players@.len() == players0.len(),
            state.wf(),
            new_score == state.scoreboard.score,
            forall|k: int|
                0 <= k < j ==> (#[trigger] state.players@[k])@ == score_step_player(
                    players0[k]@,
                    new_score,
                ),
            forall|k: int| j <= k < np ==> state.players@[k] == players0[k],
            state.bricks == old(state).bricks,
            state.ceiling == old(state).ceiling,
            state.scoreboard == (Scoreboard { score: new_score }),
            state.score_timer == (ScoreTimer { ticks_left: SCORE_INTERVAL_TICKS as u32 }),
            state.bounds == old(state).bounds,
            state.next_entity == old(state).next_entity,
        decreases np - j,
    {
        if !state.players[j].dead {
            let pm = &mut state.players[j];
            pm.score = PlayerScore { score: new_score };
            proof {
                assert(state.players@[j as int]@ =~= score_step_player(
                    players0[j as int]@,
                    new_score,
                ));
            }
        }
        j += 1;
    }
}

/// Resets the shared score counter as a round begins.
pub fn init_score(state: &mut GameState)
    requires
        old(state).wf(),
    ensures
        final(state).wf(),
        final(state).scoreboard == (Scoreboard { score: 0 }),
        final(state).players == old(state).players,
        final(state).bricks == old(state).bricks,
        final(state).ceiling == old(state).ceiling,
        final(state).score_timer == old(state).score_timer,
        final(state).bounds == old(state).bounds,
        final(state).next_entity == old(state).next_entity,
{
    state.scoreboard.score = 0;
}

} // verus!
