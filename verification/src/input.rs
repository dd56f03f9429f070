//! Steering input: writing the per-tick normalized move vector into each
//! player, either one shared local vector or one packed byte per player
//! from the rollback transport, and the packing of a local byte for that
//! transport.

use vstd::prelude::*;
use crate::constants::{INPUT_LEFT, INPUT_RIGHT};
use crate::geom::Vec2i;
use crate::player::{PlayerView, Userinput};
use crate::state::{GameState, InGameMode, InGameSetting};

verus! {

/// The packed input byte for the rollback transport: one bit per held
/// direction.
pub open spec fn encode_input_spec(left: bool, right: bool) -> u8 {
    (if left {
        INPUT_LEFT
    } else {
        0
    }) | (if right {
        INPUT_RIGHT
    } else {
        0
    })
}

/// Packs the held directions into the one input byte the rollback
/// transport carries per player and tick.
pub fn network_input_system(left: bool, right: bool) -> (r: u8)
    ensures
        r == encode_input_spec(left, right),
{
    let input: u8 = if left {
        if right {
            INPUT_LEFT | INPUT_RIGHT
        } else {
            INPUT_LEFT
        }
    } else {
        if right {
            INPUT_RIGHT
        } else {
            0
        }
    };
    proof {
        assert((1u8 | 0u8) == 1u8 && (0u8 | 2u8) == 2u8 && (0u8 | 0u8) == 0u8) by (bit_vector);
    }
    input
}

/// The steering acceleration a packed input byte decodes to: right and
/// left cancel when both bits are held.
pub open spec fn net_accel(input: u8) -> int {
    (if input & INPUT_RIGHT != 0 {
        1int
    } else {
        0int
    }) + (if input & INPUT_LEFT != 0 {
        -1int
    } else {
        0int
    })
}

/// Packing the held directions and decoding the byte again yields the
/// steering the directions describe: right minus left, cancelling when
/// both are held.
pub proof fn lemma_input_byte_round_trip(left: bool, right: bool)
    ensures
        net_accel(encode_input_spec(left, right)) == (if right {
            1int
        } else {
            0int
        }) - (if left {
            1int
        } else {
            0int
        }),
{
    assert((0u8 & 2u8) == 0 && (0u8 & 1u8) == 0 && (1u8 & 2u8) == 0 && (1u8 & 1u8) == 1 && (2u8
        & 2u8) == 2 && (2u8 & 1u8) == 0 && (3u8 & 2u8) == 2 && (3u8 & 1u8) == 1 && (1u8 | 0u8)
        == 1 && (0u8 | 2u8) == 2 && (0u8 | 0u8) == 0 && (1u8 | 2u8) == 3) by (bit_vector);
}

/// What writing one shared local steering vector makes of one player.
pub open spec fn local_input_step(p: PlayerView, accelection: Vec2i) -> PlayerView {
    if p.dead {
        p
    } else {
        PlayerView { userinput: Userinput { move_accelection: accelection }, ..p }
    }
}

/// What decoding the transport's input byte makes of one player.
pub open spec fn net_input_step(p: PlayerView, inputs: Seq<u8>) -> PlayerView {
    if p.dead {
        p
    } else {
        PlayerView {
            userinput: Userinput {
                move_accelection: Vec2i { x: net_accel(inputs[p.handle as int]) as i64, y: 0 },
            },
            ..p
        }
    }
}

/// Writes one shared local steering vector into every living player.
#[verifier::loop_isolation(false)]
pub fn userinput_system(state: &mut GameState, accelection: Vec2i)
    requires
        old(state).wf(),
        -1 <= accelection.x <= 1,
        accelection.y == 0,
    ensures
        final(state).wf(),
        final(state).players@.len() == old(state).players@.len(),
        forall|i: int|
            0 <= i < old(state).players@.len() ==> (#[trigger] final(state).players@[i])@
                == local_input_step(old(state).players@[i]@, accelection),
        final(state).bricks == old(state).bricks,
        final(state).ceiling == old(state).ceiling,
        final(state).scoreboard == old(state).scoreboard,
        final(state).score_timer == old(state).score_timer,
        final(state).bounds == old(state).bounds,
        final(state).next_entity == old(state).next_entity,
{
    let ghost players0 = old(state).players@;
    let np = state.players.len();
    let mut i: usize = 0;
    while i < np
        invariant
            i <= np,
            np == players0.len(),
            state.players@.len() == players0.len(),
            state.wf(),
            forall|k: int|
                0 <= k < i ==> (#[trigger] state.players@[k])@ == local_input_step(
                    players0[k]@,
                    accelection,
                ),
            forall|k: int| i <= k < np ==> state.players@[k] == players0[k],
            state.bricks == old(state).bricks,
            state.ceiling == old(state).ceiling,
            state.scoreboard == old(state).scoreboard,
            state.score_timer == old(state).score_timer,
            state.bounds == old(state).bounds,
            state.next_entity == old(state).next_entity,
        decreases np - i,
    {
        if !state.players[i].dead {
            let pm = &mut state.players[i];
            pm.userinput = Userinput { move_accelection: accelection };
            proof {
                assert(state.players@[i as int]@ =~= local_input_step(
                    players0[i as int]@,
                    accelection,
                ));
            }
        }
        i += 1;
    }
}

/// Writes each living player's steering input for this tick: in a local
/// session the one shared vector read from the input devices, in a
/// networked session the decoded packed byte the rollback transport
/// supplies for the player's handle.
#[verifier::loop_isolation(false)]
pub fn userinput_system_2(
    state: &mut GameState,
    in_game_setting: InGameSetting,
    accelection: Vec2i,
    network_inputs: &Vec<u8>,
)
    requires
        old(state).wf(),
        -1 <= accelection.x <= 1,
        accelection.y == 0,
        in_game_setting.mode is Online ==> forall|i: int|
            0 <= i < old(state).players@.len() ==> (#[trigger] old(state).players@[i]).handle
                < network_inputs@.len(),
    ensures
        final(state).wf(),
        final(state).players@.len() == old(state).players@.len(),
        forall|i: int|
            0 <= i < old(state).players@.len() ==> (#[trigger] final(state).players@[i])@ == (
            match in_game_setting.mode {
                InGameMode::Offline => local_input_step(old(state).players@[i]@, accelection),
                InGameMode::Online => net_input_step(old(state).players@[i]@, network_inputs@),
            }),
        final(state).bricks == old(state).bricks,
        final(state).ceiling == old(state).ceiling,
        final(state).scoreboard == old(state).scoreboard,
        final(state).score_timer == old(state).score_timer,
        final(state).bounds == old(state).bounds,
        final(state).next_entity == old(state).next_entity,
{
    match in_game_setting.mode {
        InGameMode::Offline => {
            userinput_system(state, accelection);
        },
        InGameMode::Online => {
            let ghost players0 = old(state).players@;
            let np = state.players.len();
            let mut i: usize = 0;
            while i < np
                invariant
                    i <= np,
                    np == players0.len(),
                    state.players@.len() == players0.len(),
                    state.wf(),
                    forall|k: int|
                        0 <= k < i ==> (#[trigger] state.players@[k])@ == net_input_step(
                            players0[k]@,
                            network_inputs@,
                        ),
                    forall|k: int| i <= k < np ==> state.players@[k] == players0[k],
                    state.bricks == old(state).bricks,
                    state.ceiling == old(state).ceiling,
                    state.scoreboard == old(state).scoreboard,
                    state.score_timer == old(state).score_timer,
                    state.bounds == old(state).bounds,
                    state.next_entity == old(state).next_entity,
                decreases np - i,
            {
                if !state.players[i].dead {
                    let handle = state.players[i].handle;
                    let input = network_inputs[handle as usize];
                    let mut ax: i64 = 0;
                    if input & INPUT_RIGHT != 0 {
                        ax = ax + 1;
                    }
                    if input & INPUT_LEFT != 0 {
                        ax = ax - 1;
                    }
                    let pm = &mut state.players[i];
                    pm.userinput = Userinput { move_accelection: Vec2i { x: ax, y: 0 } };
                    proof {
                        assert(state.players@[i as int]@ =~= net_input_step(
                            players0[i as int]@,
                            network_inputs@,
                        ));
                    }
                }
                i += 1;
            }
        },
    }
}

} // verus!
