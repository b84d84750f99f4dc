//! Joining a session: stake, claim the first free slot, and start the
//! match the moment the last usable slot fills.

use vstd::prelude::*;

use crate::errors::WagerError;
use crate::player::PlayerId;
use crate::state::{lemma_first_empty_slot, spec_first_empty_slot, GameSession, GameStatus, Team};

verus! {

broadcast use vstd::array::group_array_axioms;

/// `t` with slot `si` given to `user`: ten spawns, no kills yet.
pub open spec fn spec_join_team(t: Team, si: int, user: PlayerId) -> Team {
    Team {
        players: vstd::array::spec_array_update(t.players, si, user),
        player_spawns: vstd::array::spec_array_update(t.player_spawns, si, 10u16),
        player_kills: vstd::array::spec_array_update(t.player_kills, si, 0u16),
        ..t
    }
}

/// The session after `user` takes the first free slot of the chosen team,
/// before the status is reconsidered.
pub open spec fn spec_join_session(s: GameSession, team: u8, si: int, user: PlayerId) -> GameSession {
    if team == 0 {
        GameSession { team_a: spec_join_team(s.team_a, si, user), ..s }
    } else {
        GameSession { team_b: spec_join_team(s.team_b, si, user), ..s }
    }
}

/// Adds `user` to the chosen team's first free slot and debits nothing
/// itself: on success the returned amount is the session bet the caller
/// must move from the user's stake account into the session vault.
///
/// A caller already seated in either roster is rejected with
/// `InvalidPlayer`: no identity may occupy two slots of one session.
/// The session moves to `InProgress` exactly when this join fills the
/// last usable slot across both teams; otherwise the status is
/// untouched, and it never regresses.
pub fn join_user_handler(session: &mut GameSession, user: PlayerId, team: u8) -> (r: Result<
    u64,
    WagerError,
>)
    ensures
        old(session).status.rank() <= final(session).status.rank(),
        r is Err ==> *final(session) == *old(session),
        old(session).status != GameStatus::WaitingForPlayers <==> r == Err::<u64, WagerError>(
            WagerError::InvalidGameState,
        ),
        (old(session).status == GameStatus::WaitingForPlayers && team >= 2) <==> r == Err::<
            u64,
            WagerError,
        >(WagerError::InvalidTeamSelection),
        (old(session).status == GameStatus::WaitingForPlayers && team <= 1 && old(
            session,
        ).roster_holds(user)) <==> r == Err::<u64, WagerError>(WagerError::InvalidPlayer),
        (old(session).status == GameStatus::WaitingForPlayers && team <= 1 && !old(
            session,
        ).roster_holds(user) && ({
            let n = old(session).game_mode.spec_players_per_team() as int;
            let chosen = if team == 0 {
                old(session).team_a
            } else {
                old(session).team_b
            };
            chosen.full_up_to(n)
        })) <==> r == Err::<u64, WagerError>(WagerError::TeamIsFull),
        r is Ok <==> (old(session).status == GameStatus::WaitingForPlayers && team <= 1 && !old(
            session,
        ).roster_holds(user) && !({
            let n = old(session).game_mode.spec_players_per_team() as int;
            let chosen = if team == 0 {
                old(session).team_a
            } else {
                old(session).team_b
            };
            chosen.full_up_to(n)
        })),
        r is Ok ==> r == Ok::<u64, WagerError>(old(session).session_bet),
        r is Ok ==> ({
            let n = old(session).game_mode.spec_players_per_team() as int;
            let chosen = if team == 0 {
                old(session).team_a
            } else {
                old(session).team_b
            };
            let si = spec_first_empty_slot(chosen, n, 0)->Some_0;
            let joined = spec_join_session(*old(session), team, si, user);
            *final(session) == GameSession {
                status: if joined.teams_full() {
                    GameStatus::InProgress
                } else {
                    GameStatus::WaitingForPlayers
                },
                ..joined
            }
        }),
        r is Ok ==> (final(session).status == GameStatus::InProgress
            <==> final(session).teams_full()),
        old(session).wf() && r is Ok ==> final(session).wf(),
        r is Ok ==> final(session).roster_holds(user),
        r is Ok ==> forall|p: PlayerId|
            p != user && !old(session).roster_holds(p)
                ==> !(#[trigger] final(session).roster_holds(p)),
{
    let ghost s0 = *session;
    if session.status != GameStatus::WaitingForPlayers {
        return Err(WagerError::InvalidGameState);
    }
    if !(team == 0 || team == 1) {
        return Err(WagerError::InvalidTeamSelection);
    }
    if session.roster_contains(&user) {
        return Err(WagerError::InvalidPlayer);
    }
    let empty_index = match session.get_player_empty_slot(team) {
        Ok(i) => i,
        Err(e) => {
            proof {
                let n = s0.game_mode.spec_players_per_team() as int;
                lemma_first_empty_slot(if team == 0 { s0.team_a } else { s0.team_b }, n, 0);
            }
            return Err(e);
        },
    };
    proof {
        let n = s0.game_mode.spec_players_per_team() as int;
        lemma_first_empty_slot(if team == 0 { s0.team_a } else { s0.team_b }, n, 0);
    }
    let session_bet = session.session_bet;
    if team == 0 {
        session.team_a.players[empty_index] = user;
        session.team_a.player_spawns[empty_index] = 10;
        session.team_a.player_kills[empty_index] = 0;
    } else {
        session.team_b.players[empty_index] = user;
        session.team_b.player_spawns[empty_index] = 10;
        session.team_b.player_kills[empty_index] = 0;
    }
    proof {
        let joined = spec_join_session(s0, team, empty_index as int, user);
        assert(session.team_a =~= joined.team_a);
        assert(session.team_b =~= joined.team_b);
        assert(*session =~= joined);
    }
    let all_filled = match session.check_all_filled() {
        Ok(b) => b,
        Err(e) => { return Err(e) },
    };
    if all_filled {
        session.status = GameStatus::InProgress;
    }
    proof {
        let si = empty_index as int;
        let joined = spec_join_session(s0, team, si, user);
        assert(*session =~= GameSession {
            status: if joined.teams_full() {
                GameStatus::InProgress
            } else {
                GameStatus::WaitingForPlayers
            },
            ..joined
        });
        // A real identity: were `user` the sentinel, it would equal the
        // free slot's own key and so already be held by the roster.
        assert(!user.is_sentinel()) by {
            if user.is_sentinel() {
                let chosen = if team == 0 {
                    s0.team_a
                } else {
                    s0.team_b
                };
                assert(chosen.players[si].is_sentinel());
                assert(chosen.players[si].bytes =~= user.bytes);
                assert(chosen.players[si] == user);
            }
        }
        if s0.wf() {
            lemma_join_preserves_wf(s0, team, si, user, session.status);
            assert(session.wf());
        }
        if team == 0 {
            assert(session.team_a.players[si] == user);
        } else {
            assert(session.team_b.players[si] == user);
        }
        assert forall|p: PlayerId|
            p != user && !s0.roster_holds(p) implies !session.roster_holds(p) by {
            if session.team_a.roster_holds(p) {
                let k = choose|k: int| 0 <= k < 5 && session.team_a.players[k] == p;
                if team == 0 && k == si {
                } else {
                    assert(s0.team_a.players[k] == p);
                }
            }
            if session.team_b.roster_holds(p) {
                let k = choose|k: int| 0 <= k < 5 && session.team_b.players[k] == p;
                if team == 1 && k == si {
                } else {
                    assert(s0.team_b.players[k] == p);
                }
            }
        }
    }
    Ok(session_bet)
}

/// Filling a usable free slot with a fresh, real identity keeps the
/// session well-formed, whatever the status then becomes.
proof fn lemma_join_preserves_wf(s: GameSession, team: u8, si: int, user: PlayerId, st: GameStatus)
    requires
        s.wf(),
        team <= 1,
        0 <= si < s.game_mode.spec_players_per_team() as int,
        !user.is_sentinel(),
        !s.roster_holds(user),
    ensures
        (GameSession { status: st, ..spec_join_session(s, team, si, user) }).wf(),
{
    let n = s.game_mode.spec_players_per_team() as int;
    let j = spec_join_session(s, team, si, user);
    let all0 = s.all_players_seq();
    let all1 = j.all_players_seq();
    let pos = if team == 0 {
        si
    } else {
        5 + si
    };
    assert forall|i: int| 0 <= i < 10 implies #[trigger] all1[i] == (if i == pos {
        user
    } else {
        all0[i]
    }) by {
        if i < 5 {
            assert(all1[i] == j.team_a.players[i]);
            assert(all0[i] == s.team_a.players[i]);
        } else {
            assert(all1[i] == j.team_b.players[i - 5]);
            assert(all0[i] == s.team_b.players[i - 5]);
        }
    }
    assert forall|i: int| 0 <= i < 10 && i != pos implies #[trigger] all0[i] != user by {
        if i < 5 {
            assert(all0[i] == s.team_a.players[i]);
            assert(!s.team_a.roster_holds(user));
        } else {
            assert(all0[i] == s.team_b.players[i - 5]);
            assert(!s.team_b.roster_holds(user));
        }
    }
    assert forall|i: int, k: int|
        0 <= i < k < 10 && !(#[trigger] all1[i]).is_sentinel() implies all1[i]
        != #[trigger] all1[k] by {
        if i != pos && k != pos {
            assert(all1[i] == all0[i] && all1[k] == all0[k]);
        } else if i == pos {
            assert(all1[i] == user && all1[k] == all0[k]);
        } else {
            assert(all1[k] == user && all1[i] == all0[i]);
        }
    }
    let js = GameSession { status: st, ..j };
    assert(js.all_players_seq() =~= all1);
    assert forall|i: int, k: int|
        0 <= i < k < 10 && !(#[trigger] js.all_players_seq()[i]).is_sentinel() implies js.all_players_seq()[i]
        != #[trigger] js.all_players_seq()[k] by {
        assert(js.all_players_seq()[i] == all1[i]);
        assert(js.all_players_seq()[k] == all1[k]);
    }
    assert forall|i: int| n <= i < 5 implies !js.team_a.slot_occupied(i) by {
        assert(js.team_a.players[i] == s.team_a.players[i]);
        assert(!s.team_a.slot_occupied(i));
    }
    assert forall|i: int| n <= i < 5 implies !js.team_b.slot_occupied(i) by {
        assert(js.team_b.players[i] == s.team_b.players[i]);
        assert(!s.team_b.slot_occupied(i));
    }
    assert forall|i: int|
        0 <= i < 5 && !js.team_a.slot_occupied(i) implies js.team_a.player_spawns[i] == 0
        && js.team_a.player_kills[i] == 0 by {
        if team == 0 && i == si {
            assert(js.team_a.players[i] == user);
        } else {
            if team == 0 {
                assert(js.team_a.players[i] == s.team_a.players[i]);
                assert(js.team_a.player_spawns[i] == s.team_a.player_spawns[i]);
                assert(js.team_a.player_kills[i] == s.team_a.player_kills[i]);
            }
            assert(!s.team_a.slot_occupied(i));
        }
    }
    assert forall|i: int|
        0 <= i < 5 && !js.team_b.slot_occupied(i) implies js.team_b.player_spawns[i] == 0
        && js.team_b.player_kills[i] == 0 by {
        if team == 1 && i == si {
            assert(js.team_b.players[i] == user);
        } else {
            if team == 1 {
                assert(js.team_b.players[i] == s.team_b.players[i]);
                assert(js.team_b.player_spawns[i] == s.team_b.player_spawns[i]);
                assert(js.team_b.player_kills[i] == s.team_b.player_kills[i]);
            }
            assert(!s.team_b.slot_occupied(i));
        }
    }
    assert(js.wf());
}

} // verus!
