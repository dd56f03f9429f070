//! The whole simulation state threaded through the tick pipeline, plus
//! the shared score counter and the session settings.

use vstd::prelude::*;
use crate::brick::{Brick, Ceiling};
use crate::constants::SCORE_INTERVAL_TICKS;
use crate::player::Player;

verus! {

/// The shared score counter, incremented on a fixed interval.
#[derive(Clone, Copy, Debug, PartialEq, Eq, Structural)]
pub struct Scoreboard {
    pub score: u64,
}

/// Ticks remaining until the next score increment.
#[derive(Clone, Copy, Debug, PartialEq, Eq, Structural)]
pub struct ScoreTimer {
    pub ticks_left: u32,
}

/// Whether a session is driven by local input or by the rollback
/// transport's per-player input bytes.
#[derive(Clone, Copy, Debug, PartialEq, Eq, Structural)]
pub enum InGameMode {
    Offline,
    Online,
}

/// Session settings chosen in the menus.
#[derive(Clone, Copy, Debug, PartialEq, Eq, Structural)]
pub struct InGameSetting {
    pub mode: InGameMode,
    pub num_players: usize,
}

impl InGameSetting {
    /// A single-player local session.
    pub fn new_offline_1p() -> (r: InGameSetting)
        ensures
            r == (InGameSetting { mode: InGameMode::Offline, num_players: 1usize }),
    {
        InGameSetting { mode: InGameMode::Offline, num_players: 1 }
    }

    /// A two-player networked session.
    pub fn new_online_2p() -> (r: InGameSetting)
        ensures
            r == (InGameSetting { mode: InGameMode::Online, num_players: 2usize }),
    {
        InGameSetting { mode: InGameMode::Online, num_players: 2 }
    }

    pub fn set_offline_1p(&mut self)
        ensures
            *final(self) == (InGameSetting { mode: InGameMode::Offline, num_players: 1usize }),
    {
        *self = InGameSetting::new_offline_1p();
    }

    pub fn set_online_2p(&mut self)
        ensures
            *final(self) == (InGameSetting { mode: InGameMode::Online, num_players: 2usize }),
    {
        *self = InGameSetting::new_online_2p();
    }
}

/// The complete simulation state: everything a tick reads and writes.
/// `bounds` is the visible play area's full width and height, used by the
/// out-of-bounds death check; `next_entity` is the next unused entity
/// identifier.
#[derive(Clone, Debug)]
pub struct GameState {
    pub players: Vec<Player>,
    pub bricks: Vec<Brick>,
    pub ceiling: Option<Ceiling>,
    pub scoreboard: Scoreboard,
    pub score_timer: ScoreTimer,
    pub bounds: crate::geom::Vec2i,
    pub next_entity: u64,
}

impl GameState {
    /// Entity identifiers on both lists stay below `next_entity`, which
    /// makes every identifier in the state distinct.
    pub open spec fn ids_wf(self) -> bool {
        &&& forall|i: int|
            0 <= i < self.players@.len() ==> (#[trigger] self.players@[i]).id < self.next_entity
        &&& forall|i: int|
            0 <= i < self.bricks@.len() ==> (#[trigger] self.bricks@[i]).id < self.next_entity
        &&& forall|i: int, j: int|
            0 <= i < j < self.players@.len() ==> (#[trigger] self.players@[i]).id != (
            #[trigger] self.players@[j]).id
        &&& forall|i: int, j: int|
            0 <= i < j < self.bricks@.len() ==> (#[trigger] self.bricks@[i]).id != (
            #[trigger] self.bricks@[j]).id
    }

    /// All movable entity positions bounded in magnitude by `limit`: the
    /// machine limit under which one tick's box arithmetic fits `i64`.
    pub open spec fn positions_within(self, limit: int) -> bool {
        &&& forall|i: int|
            0 <= i < self.players@.len() ==> crate::geom::v2_within(
                (#[trigger] self.players@[i]).pos,
                limit,
            )
        &&& forall|i: int|
            0 <= i < self.bricks@.len() ==> crate::geom::v2_within(
                (#[trigger] self.bricks@[i]).pos,
                limit,
            )
        &&& match self.ceiling {
            Some(c) => crate::geom::v2_within(c.pos, limit),
            None => true,
        }
    }

    pub open spec fn wf(self) -> bool {
        &&& forall|i: int| 0 <= i < self.players@.len() ==> (#[trigger] self.players@[i]).wf()
        &&& forall|i: int| 0 <= i < self.bricks@.len() ==> (#[trigger] self.bricks@[i]).wf()
        &&& match self.ceiling {
            Some(c) => c.wf(),
            None => true,
        }
        &&& crate::brick::anchor_ok(self.bounds.x as int)
        &&& crate::brick::anchor_ok(self.bounds.y as int)
        &&& self.bounds.x >= 0 && self.bounds.y >= 0
        &&& self.ids_wf()
    }

    /// An empty state with the given visible play area.
    pub fn new(bounds: crate::geom::Vec2i) -> (r: GameState)
        requires
            crate::brick::anchor_ok(bounds.x as int),
            crate::brick::anchor_ok(bounds.y as int),
            bounds.x >= 0,
            bounds.y >= 0,
        ensures
            r.wf(),
            r.players@.len() == 0,
            r.bricks@.len() == 0,
            r.ceiling is None,
            r.scoreboard.score == 0,
            r.score_timer.ticks_left == SCORE_INTERVAL_TICKS,
            r.bounds == bounds,
            r.next_entity == 0,
    {
        GameState {
            players: Vec::new(),
            bricks: Vec::new(),
            ceiling: None,
            scoreboard: Scoreboard { score: 0 },
            score_timer: ScoreTimer { ticks_left: SCORE_INTERVAL_TICKS },
            bounds,
            next_entity: 0,
        }
    }
}

/// Tears the round down: every entity despawns, as on the transition
/// out of a finished session.
pub fn despawn_in_game_all(state: &mut GameState)
    requires
        old(state).wf(),
    ensures
        final(state).wf(),
        final(state).players@.len() == 0,
        final(state).bricks@.len() == 0,
        final(state).ceiling is None,
        final(state).scoreboard == old(state).scoreboard,
        final(state).score_timer == old(state).score_timer,
        final(state).bounds == old(state).bounds,
        final(state).next_entity == old(state).next_entity,
{
    state.players = Vec::new();
    state.bricks = Vec::new();
    state.ceiling = None;
}

/// Index of the first player bearing `id`, if any.
pub open spec fn find_player(players: Seq<crate::player::PlayerView>, id: u64) -> Option<int>
    decreases players.len(),
{
    if players.len() == 0 {
        None
    } else if players[0].id == id {
        Some(0)
    } else {
        match find_player(players.drop_first(), id) {
            Some(i) => Some(i + 1),
            None => None,
        }
    }
}

/// Index of the first brick bearing `id`, if any.
pub open spec fn find_brick(bricks: Seq<Brick>, id: u64) -> Option<int>
    decreases bricks.len(),
{
    if bricks.len() == 0 {
        None
    } else if bricks[0].id == id {
        Some(0)
    } else {
        match find_brick(bricks.drop_first(), id) {
            Some(i) => Some(i + 1),
            None => None,
        }
    }
}

/// `find_player` returns the first match: the found entry bears the
/// identifier and nothing before it does; a `None` means no entry does.
pub proof fn lemma_find_player(players: Seq<crate::player::PlayerView>, id: u64)
    ensures
        match find_player(players, id) {
            Some(i) => 0 <= i < players.len() && players[i].id == id && forall|k: int|
                0 <= k < i ==> (#[trigger] players[k]).id != id,
            None => forall|k: int| 0 <= k < players.len() ==> (#[trigger] players[k]).id != id,
        },
    decreases players.len(),
{
    if players.len() > 0 && players[0].id != id {
        let rest = players.drop_first();
        lemma_find_player(rest, id);
        assert(forall|k: int| 1 <= k < players.len() ==> players[k] == #[trigger] rest[k - 1]);
        match find_player(rest, id) {
            Some(i) => {
                assert(players[i + 1].id == id);
                assert forall|k: int| 0 <= k < i + 1 implies (#[trigger] players[k]).id != id by {
                    if k >= 1 {
                        assert(rest[k - 1].id != id);
                    }
                }
            },
            None => {
                assert forall|k: int| 0 <= k < players.len() implies (
                #[trigger] players[k]).id != id by {
                    if k >= 1 {
                        assert(rest[k - 1].id != id);
                    }
                }
            },
        }
    }
}

/// `find_brick` returns the first match, as `lemma_find_player` does.
pub proof fn lemma_find_brick(bricks: Seq<Brick>, id: u64)
    ensures
        match find_brick(bricks, id) {
            Some(i) => 0 <= i < bricks.len() && bricks[i].id == id && forall|k: int|
                0 <= k < i ==> (#[trigger] bricks[k]).id != id,
            None => forall|k: int| 0 <= k < bricks.len() ==> (#[trigger] bricks[k]).id != id,
        },
    decreases bricks.len(),
{
    if bricks.len() > 0 && bricks[0].id != id {
        let rest = bricks.drop_first();
        lemma_find_brick(rest, id);
        assert(forall|k: int| 1 <= k < bricks.len() ==> bricks[k] == #[trigger] rest[k - 1]);
        match find_brick(rest, id) {
            Some(i) => {
                assert(bricks[i + 1].id == id);
                assert forall|k: int| 0 <= k < i + 1 implies (#[trigger] bricks[k]).id != id by {
                    if k >= 1 {
                        assert(rest[k - 1].id != id);
                    }
                }
            },
            None => {
                assert forall|k: int| 0 <= k < bricks.len() implies (#[trigger] bricks[k]).id
                    != id by {
                    if k >= 1 {
                        assert(rest[k - 1].id != id);
                    }
                }
            },
        }
    }
}

/// Two brick lists whose entries bear the same identifiers are searched
/// alike.
pub proof fn lemma_find_brick_same_ids(b1: Seq<Brick>, b2: Seq<Brick>, id: u64)
    requires
        b1.len() == b2.len(),
        forall|k: int| 0 <= k < b1.len() ==> (#[trigger] b1[k]).id == (#[trigger] b2[k]).id,
    ensures
        find_brick(b1, id) == find_brick(b2, id),
    decreases b1.len(),
{
    if b1.len() > 0 {
        assert(forall|k: int|
            0 <= k < b1.len() - 1 ==> (#[trigger] b1.drop_first()[k]).id == b1[k + 1].id);
        assert(forall|k: int|
            0 <= k < b2.len() - 1 ==> (#[trigger] b2.drop_first()[k]).id == b2[k + 1].id);
        lemma_find_brick_same_ids(b1.drop_first(), b2.drop_first(), id);
    }
}

/// Looks a player up by entity identifier, returning the first index.
pub fn find_player_index(players: &Vec<Player>, id: u64) -> (r: Option<usize>)
    ensures
        ({
            let f = find_player(players@.map_values(|p: Player| p@), id);
            match r {
                Some(i) => i < players@.len() && f == Some(i as int),
                None => f is None,
            }
        }),
{
    proof {
        lemma_find_player(players@.map_values(|p: Player| p@), id);
    }
    let n = players.len();
    let mut i: usize = 0;
    while i < n
        invariant
            i <= n,
            n == players@.len(),
            forall|k: int| 0 <= k < i ==> (#[trigger] players@[k]).id != id,
        decreases n - i,
    {
        if players[i].id == id {
            proof {
                let views = players@.map_values(|p: Player| p@);
                lemma_find_player(views, id);
                assert(views[i as int].id == id);
                match find_player(views, id) {
                    Some(f) => {
                        if f < i {
                            assert(players@[f].id != id);
                            assert(views[f].id == id);
                        }
                        assert(f == i);
                    },
                    None => {
                        assert(views[i as int].id != id);
                    },
                }
            }
            return Some(i);
        }
        i += 1;
    }
    proof {
        let views = players@.map_values(|p: Player| p@);
        lemma_find_player(views, id);
        match find_player(views, id) {
            Some(f) => {
                assert(players@[f].id != id);
                assert(views[f].id == id);
            },
            None => {},
        }
    }
    None
}

/// Looks a brick up by entity identifier, returning the first index.
pub fn find_brick_index(bricks: &Vec<Brick>, id: u64) -> (r: Option<usize>)
    ensures
        ({
            let f = find_brick(bricks@, id);
            match r {
                Some(i) => i < bricks@.len() && f == Some(i as int),
                None => f is None,
            }
        }),
{
    let n = bricks.len();
    let mut i: usize = 0;
    while i < n
        invariant
            i <= n,
            n == bricks@.len(),
            forall|k: int| 0 <= k < i ==> (#[trigger] bricks@[k]).id != id,
        decreases n - i,
    {
        if bricks[i].id == id {
            proof {
                lemma_find_brick(bricks@, id);
                match find_brick(bricks@, id) {
                    Some(f) => {
                        assert(f == i);
                    },
                    None => {},
                }
            }
            return Some(i);
        }
        i += 1;
    }
    proof {
        lemma_find_brick(bricks@, id);
    }
    None
}

} // verus!
