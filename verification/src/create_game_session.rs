//! Creating a session: the one-time initialization of a session record.

use vstd::prelude::*;

use crate::player::PlayerId;
use crate::state::{GameMode, GameSession, GameStatus, Team};

verus! {

broadcast use vstd::array::group_array_axioms;

/// Initializes a session in `WaitingForPlayers` with both teams empty.
///
/// Allocation of the record and of the vault, the uniqueness of
/// `session_id` and the staking-token check are the custody platform's:
/// it hands this function the creator's identity, its clock reading and
/// the derived-address artifacts, and stores the result.
pub fn create_game_session_handler(
    session_id: String,
    authority: PlayerId,
    bet_amount: u64,
    game_mode: GameMode,
    created_at: i64,
    bump: u8,
    vault_bump: u8,
) -> (s: GameSession)
    ensures
        s.session_id == session_id,
        s.authority == authority,
        s.session_bet == bet_amount,
        s.game_mode == game_mode,
        s.status == GameStatus::WaitingForPlayers,
        s.created_at == created_at,
        s.bump == bump,
        s.vault_bump == vault_bump,
        s.vault_token_bump == 0,
        forall|i: int| 0 <= i < 5 ==> !s.team_a.slot_occupied(i) && !s.team_b.slot_occupied(i),
        forall|i: int|
            0 <= i < 5 ==> s.team_a.player_spawns[i] == 0 && s.team_a.player_kills[i] == 0
                && s.team_b.player_spawns[i] == 0 && s.team_b.player_kills[i] == 0,
        s.team_a.total_bet == 0 && s.team_b.total_bet == 0,
        s.wf(),
        !s.teams_full(),
        forall|p: PlayerId| !p.is_sentinel() ==> !s.roster_holds(p),
{
    let s = GameSession {
        session_id,
        authority,
        session_bet: bet_amount,
        game_mode,
        team_a: Team::default(),
        team_b: Team::default(),
        status: GameStatus::default(),
        created_at,
        bump,
        vault_bump,
        vault_token_bump: 0,
    };
    proof {
        assert forall|i: int| 0 <= i < 10 implies (#[trigger] s.all_players_seq()[i]).is_sentinel()
        by {
            if i < 5 {
                assert(s.all_players_seq()[i] == s.team_a.players[i]);
                assert(!s.team_a.slot_occupied(i));
            } else {
                assert(s.all_players_seq()[i] == s.team_b.players[i - 5]);
                assert(!s.team_b.slot_occupied(i - 5));
            }
        }
        assert(s.wf());
        assert(!s.team_a.slot_occupied(0));
        assert forall|p: PlayerId| !p.is_sentinel() implies !s.roster_holds(p) by {
            if s.team_a.roster_holds(p) {
                let i = choose|i: int| 0 <= i < 5 && s.team_a.players[i] == p;
                assert(!s.team_a.slot_occupied(i));
            }
            if s.team_b.roster_holds(p) {
                let i = choose|i: int| 0 <= i < 5 && s.team_b.players[i] == p;
                assert(!s.team_b.slot_occupied(i));
            }
        }
    }
    s
}

} // verus!
