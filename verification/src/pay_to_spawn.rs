//! Paying for spawns: in a pay-to-spawn match, a seated player stakes the
//! session bet again to buy a flat ten extra spawns.

use vstd::prelude::*;

use crate::errors::WagerError;
use crate::player::PlayerId;
use crate::state::{lemma_find_player_from, spec_find_player, GameSession, GameStatus, Team};

verus! {

broadcast use vstd::array::group_array_axioms;

/// Replenishes the caller's spawns by ten in exchange for one more
/// session bet: on success the returned amount is the bet the caller
/// must move from the user's stake account into the session vault.
///
/// Legal only while a pay-to-spawn match is in progress, for a player
/// already seated in the chosen team.  Each payment buys exactly ten
/// spawns whatever the bet amount; a counter that cannot take ten more
/// rejects the call rather than wrapping.
pub fn pay_to_spawn_handler(session: &mut GameSession, user: PlayerId, team: u8) -> (r: Result<
    u64,
    WagerError,
>)
    ensures
        final(session).status == old(session).status,
        r is Err ==> *final(session) == *old(session),
        !(old(session).status == GameStatus::InProgress
            && old(session).game_mode.spec_is_pay_to_spawn()) <==> r == Err::<u64, WagerError>(
            WagerError::InvalidGameState,
        ),
        (old(session).status == GameStatus::InProgress
            && old(session).game_mode.spec_is_pay_to_spawn() && team >= 2) <==> r == Err::<
            u64,
            WagerError,
        >(WagerError::InvalidTeamSelection),
        (old(session).status == GameStatus::InProgress
            && old(session).game_mode.spec_is_pay_to_spawn() && team <= 1 && spec_find_player(
            (if team == 0 {
                old(session).team_a
            } else {
                old(session).team_b
            }).players@,
            user,
        ) is None) <==> r == Err::<u64, WagerError>(WagerError::PlayerNotFound),
        (old(session).status == GameStatus::InProgress
            && old(session).game_mode.spec_is_pay_to_spawn() && team <= 1 && ({
            let t = if team == 0 {
                old(session).team_a
            } else {
                old(session).team_b
            };
            match spec_find_player(t.players@, user) {
                Some(i) => t.player_spawns[i] + 10 > u16::MAX,
                None => false,
            }
        })) <==> r == Err::<u64, WagerError>(WagerError::ArithmeticError),
        r is Ok <==> (old(session).status == GameStatus::InProgress
            && old(session).game_mode.spec_is_pay_to_spawn() && team <= 1 && ({
            let t = if team == 0 {
                old(session).team_a
            } else {
                old(session).team_b
            };
            match spec_find_player(t.players@, user) {
                Some(i) => t.player_spawns[i] + 10 <= u16::MAX,
                None => false,
            }
        })),
        r is Ok ==> r == Ok::<u64, WagerError>(old(session).session_bet),
        r is Ok ==> ({
            let t = if team == 0 {
                old(session).team_a
            } else {
                old(session).team_b
            };
            let i = spec_find_player(t.players@, user)->Some_0;
            let tnew = Team {
                player_spawns: vstd::array::spec_array_update(
                    t.player_spawns,
                    i,
                    (t.player_spawns[i] + 10) as u16,
                ),
                ..t
            };
            if team == 0 {
                *final(session) == GameSession { team_a: tnew, ..*old(session) }
            } else {
                *final(session) == GameSession { team_b: tnew, ..*old(session) }
            }
        }),
        old(session).wf() && !user.is_sentinel() && r is Ok ==> final(session).wf(),
{
    let ghost s0 = *session;
    let in_progress = match session.status {
        GameStatus::InProgress => true,
        _ => false,
    };
    if !(in_progress && session.is_pay_to_spawn()) {
        return Err(WagerError::InvalidGameState);
    }
    if !(team == 0 || team == 1) {
        return Err(WagerError::InvalidTeamSelection);
    }
    let player_index = match session.get_player_index(team, user) {
        Ok(i) => i,
        Err(e) => { return Err(e) },
    };
    proof {
        if team == 0 {
            lemma_find_player_from(s0.team_a.players@, user, 0);
        } else {
            lemma_find_player_from(s0.team_b.players@, user, 0);
        }
    }
    let session_bet = session.session_bet;
    match session.add_spawns(team, player_index) {
        Ok(_u) => {},
        Err(e) => { return Err(e) },
    }
    proof {
        if s0.wf() && !user.is_sentinel() {
            let i = player_index as int;
            assert(session.all_players_seq() =~= s0.all_players_seq());
            if team == 0 {
                assert(s0.team_a.slot_occupied(i));
            } else {
                assert(s0.team_b.slot_occupied(i));
            }
            assert forall|k: int|
                0 <= k < 5 && !session.team_a.slot_occupied(k) implies session.team_a.player_spawns[k]
                == 0 && session.team_a.player_kills[k] == 0 by {
                assert(session.team_a.players[k] == s0.team_a.players[k]);
                assert(!s0.team_a.slot_occupied(k));
            }
            assert forall|k: int|
                0 <= k < 5 && !session.team_b.slot_occupied(k) implies session.team_b.player_spawns[k]
                == 0 && session.team_b.player_kills[k] == 0 by {
                assert(session.team_b.players[k] == s0.team_b.players[k]);
                assert(!s0.team_b.slot_occupied(k));
            }
            assert forall|k: int| ({
                let n = session.game_mode.spec_players_per_team() as int;
                n <= k < 5
            }) implies !session.team_a.slot_occupied(k) by {
                assert(session.team_a.players[k] == s0.team_a.players[k]);
                assert(!s0.team_a.slot_occupied(k));
            }
            assert forall|k: int| ({
                let n = session.game_mode.spec_players_per_team() as int;
                n <= k < 5
            }) implies !session.team_b.slot_occupied(k) by {
                assert(session.team_b.players[k] == s0.team_b.players[k]);
                assert(!s0.team_b.slot_occupied(k));
            }
            assert(session.wf());
        }
    }
    Ok(session_bet)
}

} // verus!
