//! Recording a kill: the session authority reports one kill, moving the
//! killer's and the victim's counters.

use vstd::prelude::*;

use crate::errors::WagerError;
use crate::player::PlayerId;
use crate::state::{spec_add_kill, GameSession, GameStatus};

verus! {

/// Records one kill on behalf of the game server.  Only the session's
/// authority may call this; the effect and every other failure mode are
/// those of [`GameSession::add_kill`].
pub fn record_kill_handler(
    session: &mut GameSession,
    game_server: PlayerId,
    killer_team: u8,
    killer: PlayerId,
    victim_team: u8,
    victim: PlayerId,
) -> (r: Result<(), WagerError>)
    ensures
        final(session).status == old(session).status,
        r is Err ==> *final(session) == *old(session),
        game_server != old(session).authority <==> r == Err::<(), WagerError>(
            WagerError::UnauthorizedKill,
        ),
        game_server == old(session).authority ==> match spec_add_kill(
            *old(session),
            killer_team,
            killer,
            victim_team,
            victim,
        ) {
            Ok(s2) => r == Ok::<(), WagerError>(()) && *final(session) == s2,
            Err(e) => r == Err::<(), WagerError>(e) && *final(session) == *old(session),
        },
        old(session).status != GameStatus::InProgress ==> r is Err,
        old(session).wf() && !killer.is_sentinel() && r is Ok ==> final(session).wf(),
{
    if !game_server.key_eq(&session.authority) {
        return Err(WagerError::UnauthorizedKill);
    }
    session.add_kill(killer_team, killer, victim_team, victim)
}

} // verus!
