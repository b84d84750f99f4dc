//! The two payout settlements, selected by game mode: winner-takes-all,
//! and pay-to-spawn proportional earnings.

use vstd::prelude::*;

use crate::accounts::{
    find_account_pair, lemma_find_pair_from, spec_find_pair, AccountEntry, Payout,
};
use crate::errors::WagerError;
use crate::player::PlayerId;
use crate::state::{lemma_wf_any_status, GameSession, GameStatus, Team};

verus! {

broadcast use vstd::array::group_array_axioms;

/// `p` sits in one of the usable slots of the declared winning team.
pub open spec fn spec_on_winning_team(s: GameSession, winning_team: u8, p: PlayerId) -> bool {
    let n = s.game_mode.spec_players_per_team() as int;
    if winning_team == 0 {
        exists|k: int| 0 <= k < n && (#[trigger] s.team_a.players[k]) == p
    } else {
        exists|k: int| 0 <= k < n && (#[trigger] s.team_b.players[k]) == p
    }
}

/// The winner-takes-all transfers for account pairs from `j` on: each of
/// the `players_per_team` leading pairs must name a member of the
/// winning team together with that member's own account in the expected
/// token, and each winner is owed exactly double their stake.
pub open spec fn spec_wta_from(
    s: GameSession,
    winning_team: u8,
    accounts: Seq<AccountEntry>,
    mint: PlayerId,
    j: int,
) -> Result<Seq<Payout>, WagerError>
    decreases s.game_mode.spec_players_per_team() - j,
    when 0 <= j
{
    let n = s.game_mode.spec_players_per_team() as int;
    if j >= n {
        Ok(Seq::empty())
    } else {
        let winner_key = accounts[2 * j].key;
        match accounts[2 * j + 1].token {
            None => Err(WagerError::InvalidRemainingAccounts),
            Some(tok) => if tok.owner != winner_key {
                Err(WagerError::InvalidWinnerTokenAccount)
            } else if tok.mint != mint {
                Err(WagerError::InvalidTokenMint)
            } else if !spec_on_winning_team(s, winning_team, winner_key) {
                Err(WagerError::InvalidWinner)
            } else if 2 * s.session_bet > u64::MAX {
                Err(WagerError::ArithmeticError)
            } else {
                match spec_wta_from(s, winning_team, accounts, mint, j + 1) {
                    Ok(rest) => Ok(
                        seq![
                            Payout {
                                player: winner_key,
                                account_index: (2 * j + 1) as usize,
                                amount: (2 * s.session_bet) as u64,
                            },
                        ] + rest,
                    ),
                    Err(e) => Err(e),
                }
            },
        }
    }
}

/// What a winner-takes-all call yields: the guards in order — authority,
/// an open session, a valid team selector, enough account pairs — then
/// the walk over the winning team's pairs.
pub open spec fn spec_distribute_all(
    s: GameSession,
    caller: PlayerId,
    winning_team: u8,
    accounts: Seq<AccountEntry>,
    mint: PlayerId,
) -> Result<Seq<Payout>, WagerError> {
    if caller != s.authority {
        Err(WagerError::UnauthorizedDistribution)
    } else if s.status == GameStatus::Completed {
        Err(WagerError::InvalidGameState)
    } else if winning_team >= 2 {
        Err(WagerError::InvalidWinningTeam)
    } else if accounts.len() < 2 * s.game_mode.spec_players_per_team() {
        Err(WagerError::InvalidRemainingAccounts)
    } else {
        spec_wta_from(s, winning_team, accounts, mint, 0)
    }
}

/// The pay-to-spawn earnings owed to the roster players from index `i`
/// on: each player whose kills plus remaining spawns is positive must
/// have a valid account pair and earns that score times the session bet,
/// divided by ten with truncation; a zero score, like a sentinel slot,
/// is skipped.
pub open spec fn spec_earnings_from(
    s: GameSession,
    accounts: Seq<AccountEntry>,
    mint: PlayerId,
    i: int,
) -> Result<Seq<Payout>, WagerError>
    decreases 10 - i,
    when 0 <= i <= 10
{
    if i >= 10 {
        Ok(Seq::empty())
    } else {
        let p = s.all_players_seq()[i];
        match s.spec_kills_and_spawns(p) {
            None => Err(WagerError::PlayerNotFound),
            Some(ks) => if ks > u16::MAX {
                Err(WagerError::ArithmeticError)
            } else if ks == 0 {
                spec_earnings_from(s, accounts, mint, i + 1)
            } else if ks * s.session_bet > u64::MAX {
                Err(WagerError::ArithmeticError)
            } else {
                let earnings = ks * s.session_bet / 10;
                match spec_find_pair(accounts, p) {
                    None => Err(WagerError::InvalidPlayer),
                    Some(q) => match accounts[2 * q + 1].token {
                        None => Err(WagerError::InvalidRemainingAccounts),
                        Some(tok) => if tok.owner != p {
                            Err(WagerError::InvalidPlayerTokenAccount)
                        } else if tok.mint != mint {
                            Err(WagerError::InvalidTokenMint)
                        } else {
                            match spec_earnings_from(s, accounts, mint, i + 1) {
                                Ok(rest) => if earnings > 0 {
                                    Ok(
                                        seq![
                                            Payout {
                                                player: p,
                                                account_index: (2 * q + 1) as usize,
                                                amount: earnings as u64,
                                            },
                                        ] + rest,
                                    )
                                } else {
                                    Ok(rest)
                                },
                                Err(e) => Err(e),
                            }
                        },
                    },
                }
            },
        }
    }
}

/// What a pay-to-spawn settlement call yields: the guards in order —
/// authority, an open session, a non-empty list of account pairs — then
/// the walk over the whole roster.
pub open spec fn spec_distribute_earnings(
    s: GameSession,
    caller: PlayerId,
    accounts: Seq<AccountEntry>,
    mint: PlayerId,
) -> Result<Seq<Payout>, WagerError> {
    if caller != s.authority {
        Err(WagerError::UnauthorizedDistribution)
    } else if s.status == GameStatus::Completed {
        Err(WagerError::InvalidGameState)
    } else if accounts.len() == 0 || accounts.len() % 2 != 0 {
        Err(WagerError::InvalidRemainingAccounts)
    } else {
        spec_earnings_from(s, accounts, mint, 0)
    }
}

/// Whether one of the first `n` slots of `team` holds `p`.
fn team_has_player(team: &Team, n: usize, p: &PlayerId) -> (r: bool)
    requires
        n <= 5,
    ensures
        r == exists|k: int| 0 <= k < n && team.players[k] == *p,
{
    let mut k: usize = 0;
    while k < n
        invariant
            0 <= k <= n <= 5,
            forall|m: int| 0 <= m < k ==> team.players[m] != *p,
        decreases n - k,
    {
        if team.players[k].key_eq(p) {
            return true;
        }
        k += 1;
    }
    false
}

/// Winner-takes-all settlement: pays each member of the winning team
/// exactly double their stake — the pooled stake of the symmetric
/// 1:1 pairing — and marks the session completed.  The returned
/// transfers are what the caller must perform out of the vault; on any
/// failure nothing is owed and the session is unchanged.
///
/// Authority-only; a session already completed is rejected, so settling
/// twice is impossible.
pub fn distribute_all_winnings_handler(
    session: &mut GameSession,
    game_server: PlayerId,
    winning_team: u8,
    accounts: &Vec<AccountEntry>,
    expected_mint: PlayerId,
) -> (r: Result<Vec<Payout>, WagerError>)
    ensures
        old(session).status.rank() <= final(session).status.rank(),
        r is Err ==> *final(session) == *old(session),
        match spec_distribute_all(
            *old(session),
            game_server,
            winning_team,
            accounts@,
            expected_mint,
        ) {
            Ok(ps) => r is Ok && r->Ok_0@ == ps && *final(session) == GameSession {
                status: GameStatus::Completed,
                ..*old(session)
            },
            Err(e) => r == Err::<Vec<Payout>, WagerError>(e),
        },
        old(session).status == GameStatus::Completed ==> r is Err,
        old(session).wf() ==> final(session).wf(),
{
    let ghost s0 = *session;
    if !game_server.key_eq(&session.authority) {
        return Err(WagerError::UnauthorizedDistribution);
    }
    let completed = match session.status {
        GameStatus::Completed => true,
        _ => false,
    };
    if completed {
        return Err(WagerError::InvalidGameState);
    }
    if !(winning_team == 0 || winning_team == 1) {
        return Err(WagerError::InvalidWinningTeam);
    }
    let players_per_team = session.game_mode.players_per_team();
    if accounts.len() < 2 * players_per_team {
        return Err(WagerError::InvalidRemainingAccounts);
    }
    let winning = if winning_team == 0 {
        session.team_a
    } else {
        session.team_b
    };
    let mut payouts: Vec<Payout> = Vec::new();
    let mut j: usize = 0;
    while j < players_per_team
        invariant
            0 <= j <= players_per_team,
            s0 == *old(session),
            *session == s0,
            players_per_team == s0.game_mode.spec_players_per_team(),
            winning == if winning_team == 0 {
                s0.team_a
            } else {
                s0.team_b
            },
            winning_team <= 1,
            game_server == s0.authority,
            s0.status != GameStatus::Completed,
            accounts@.len() >= 2 * players_per_team,
            accounts@.len() <= usize::MAX,
            match spec_wta_from(s0, winning_team, accounts@, expected_mint, j as int) {
                Ok(rest) => spec_wta_from(s0, winning_team, accounts@, expected_mint, 0) == Ok::<
                    Seq<Payout>,
                    WagerError,
                >(payouts@ + rest),
                Err(e) => spec_wta_from(s0, winning_team, accounts@, expected_mint, 0) == Err::<
                    Seq<Payout>,
                    WagerError,
                >(e),
            },
        decreases players_per_team - j,
    {
        let ghost gj = j as int;
        let winner_key = accounts[2 * j].key;
        let token = match &accounts[2 * j + 1].token {
            Some(t) => *t,
            None => { return Err(WagerError::InvalidRemainingAccounts) },
        };
        if !token.owner.key_eq(&winner_key) {
            return Err(WagerError::InvalidWinnerTokenAccount);
        }
        if !token.mint.key_eq(&expected_mint) {
            return Err(WagerError::InvalidTokenMint);
        }
        if !team_has_player(&winning, players_per_team, &winner_key) {
            return Err(WagerError::InvalidWinner);
        }
        let winning_amount = match session.session_bet.checked_mul(2) {
            Some(a) => a,
            None => {
                proof {
                    let t = if winning_team == 0 {
                        s0.team_a
                    } else {
                        s0.team_b
                    };
                    let k0 = choose|k: int|
                        0 <= k < players_per_team && winning.players[k] == winner_key;
                    assert(t.players[k0] == winner_key);
                    assert(spec_on_winning_team(s0, winning_team, winner_key));
                    assert(spec_wta_from(s0, winning_team, accounts@, expected_mint, gj) == Err::<
                        Seq<Payout>,
                        WagerError,
                    >(WagerError::ArithmeticError));
                }
                return Err(WagerError::ArithmeticError);
            },
        };
        let ghost payouts_before = payouts@;
        payouts.push(Payout { player: winner_key, account_index: 2 * j + 1, amount: winning_amount });
        proof {
            assert(accounts@[2 * gj].key == winner_key);
            assert(accounts@[2 * gj + 1].token == Some(token));
            let t = if winning_team == 0 {
                s0.team_a
            } else {
                s0.team_b
            };
            let k0 = choose|k: int| 0 <= k < players_per_team && winning.players[k] == winner_key;
            assert(t.players[k0] == winner_key);
            assert(spec_on_winning_team(s0, winning_team, winner_key));
            let pay = Payout {
                player: winner_key,
                account_index: (2 * gj + 1) as usize,
                amount: (2 * s0.session_bet) as u64,
            };
            match spec_wta_from(s0, winning_team, accounts@, expected_mint, gj + 1) {
                Ok(rest) => {
                    assert(spec_wta_from(s0, winning_team, accounts@, expected_mint, gj) == Ok::<
                        Seq<Payout>,
                        WagerError,
                    >(seq![pay] + rest));
                    assert(payouts_before + (seq![pay] + rest) =~= payouts@ + rest);
                },
                Err(e) => {},
            }
        }
        j += 1;
    }
    session.status = GameStatus::Completed;
    proof {
        assert(payouts@ + Seq::<Payout>::empty() =~= payouts@);
        assert(*session =~= GameSession { status: GameStatus::Completed, ..s0 });
        if s0.wf() {
            lemma_wf_any_status(s0, GameStatus::Completed);
        }
    }
    Ok(payouts)
}

/// Pay-to-spawn settlement: pays every player their accumulated
/// kills-plus-spawns score valued at the spawn price — score times the
/// session bet, divided by ten with truncation — and marks the session
/// completed.  Zero-score players and sentinel slots are skipped, not
/// errors.  The returned transfers are what the caller must perform out
/// of the vault; on any failure nothing is owed and the session is
/// unchanged.
///
/// Authority-only; a session already completed is rejected, so settling
/// twice is impossible.
pub fn distribute_pay_spawn_earnings(
    session: &mut GameSession,
    game_server: PlayerId,
    accounts: &Vec<AccountEntry>,
    expected_mint: PlayerId,
) -> (r: Result<Vec<Payout>, WagerError>)
    ensures
        old(session).status.rank() <= final(session).status.rank(),
        r is Err ==> *final(session) == *old(session),
        match spec_distribute_earnings(*old(session), game_server, accounts@, expected_mint) {
            Ok(ps) => r is Ok && r->Ok_0@ == ps && *final(session) == GameSession {
                status: GameStatus::Completed,
                ..*old(session)
            },
            Err(e) => r == Err::<Vec<Payout>, WagerError>(e),
        },
        old(session).status == GameStatus::Completed ==> r is Err,
        old(session).wf() ==> final(session).wf(),
{
    let ghost s0 = *session;
    if !game_server.key_eq(&session.authority) {
        return Err(WagerError::UnauthorizedDistribution);
    }
    let completed = match session.status {
        GameStatus::Completed => true,
        _ => false,
    };
    if completed {
        return Err(WagerError::InvalidGameState);
    }
    if accounts.len() == 0 {
        return Err(WagerError::InvalidRemainingAccounts);
    }
    if accounts.len() % 2 != 0 {
        return Err(WagerError::InvalidRemainingAccounts);
    }
    let players = session.get_all_players();
    let mut payouts: Vec<Payout> = Vec::new();
    let mut i: usize = 0;
    while i < 10
        invariant
            0 <= i <= 10,
            s0 == *old(session),
            *session == s0,
            players@ == s0.all_players_seq(),
            players@.len() == 10,
            accounts@.len() <= usize::MAX,
            game_server == s0.authority,
            s0.status != GameStatus::Completed,
            accounts@.len() > 0,
            accounts@.len() % 2 == 0,
            match spec_earnings_from(s0, accounts@, expected_mint, i as int) {
                Ok(rest) => spec_earnings_from(s0, accounts@, expected_mint, 0) == Ok::<
                    Seq<Payout>,
                    WagerError,
                >(payouts@ + rest),
                Err(e) => spec_earnings_from(s0, accounts@, expected_mint, 0) == Err::<
                    Seq<Payout>,
                    WagerError,
                >(e),
            },
        decreases 10 - i,
    {
        let ghost gi = i as int;
        let player = players[i];
        let kills_and_spawns = match session.get_kills_and_spawns(player) {
            Ok(v) => v,
            Err(e) => { return Err(e) },
        };
        if kills_and_spawns == 0 {
            i += 1;
            continue ;
        }
        let earnings = match (kills_and_spawns as u64).checked_mul(session.session_bet) {
            Some(prod) => prod / 10,
            None => { return Err(WagerError::ArithmeticError) },
        };
        let pair_index = match find_account_pair(accounts, &player) {
            Some(q) => q,
            None => { return Err(WagerError::InvalidPlayer) },
        };
        proof {
            lemma_find_pair_from(accounts@, player, 0);
            assert(2 * (pair_index as int) + 1 < accounts@.len());
        }
        let token_index = 2 * pair_index + 1;
        let token = match &accounts[token_index].token {
            Some(t) => *t,
            None => { return Err(WagerError::InvalidRemainingAccounts) },
        };
        if !token.owner.key_eq(&player) {
            return Err(WagerError::InvalidPlayerTokenAccount);
        }
        if !token.mint.key_eq(&expected_mint) {
            return Err(WagerError::InvalidTokenMint);
        }
        let ghost payouts_before = payouts@;
        if earnings > 0 {
            payouts.push(Payout { player, account_index: token_index, amount: earnings });
        }
        proof {
            let ks = s0.spec_kills_and_spawns(player)->Some_0;
            let pay = Payout {
                player,
                account_index: token_index,
                amount: (ks * s0.session_bet / 10) as u64,
            };
            match spec_earnings_from(s0, accounts@, expected_mint, gi + 1) {
                Ok(rest) => {
                    if earnings > 0 {
                        assert(spec_earnings_from(s0, accounts@, expected_mint, gi) == Ok::<
                            Seq<Payout>,
                            WagerError,
                        >(seq![pay] + rest));
                        assert(payouts_before + (seq![pay] + rest) =~= payouts@ + rest);
                    } else {
                        assert(spec_earnings_from(s0, accounts@, expected_mint, gi) == Ok::<
                            Seq<Payout>,
                            WagerError,
                        >(rest));
                    }
                },
                Err(e) => {},
            }
        }
        i += 1;
    }
    session.status = GameStatus::Completed;
    proof {
        assert(payouts@ + Seq::<Payout>::empty() =~= payouts@);
        assert(*session =~= GameSession { status: GameStatus::Completed, ..s0 });
        if s0.wf() {
            lemma_wf_any_status(s0, GameStatus::Completed);
        }
    }
    Ok(payouts)
}

/// Settles a session according to its mode — pay-to-spawn proportional
/// earnings for the pay-to-spawn modes, winner-takes-all otherwise —
/// with the effect and failure modes of the selected settlement.
pub fn distribute_winnings(
    session: &mut GameSession,
    game_server: PlayerId,
    winning_team: u8,
    accounts: &Vec<AccountEntry>,
    expected_mint: PlayerId,
) -> (r: Result<Vec<Payout>, WagerError>)
    ensures
        old(session).status.rank() <= final(session).status.rank(),
        r is Err ==> *final(session) == *old(session),
        match (if old(session).game_mode.spec_is_pay_to_spawn() {
            spec_distribute_earnings(*old(session), game_server, accounts@, expected_mint)
        } else {
            spec_distribute_all(*old(session), game_server, winning_team, accounts@, expected_mint)
        }) {
            Ok(ps) => r is Ok && r->Ok_0@ == ps && *final(session) == GameSession {
                status: GameStatus::Completed,
                ..*old(session)
            },
            Err(e) => r == Err::<Vec<Payout>, WagerError>(e),
        },
        old(session).status == GameStatus::Completed ==> r is Err,
        old(session).wf() ==> final(session).wf(),
{
    if session.is_pay_to_spawn() {
        distribute_pay_spawn_earnings(session, game_server, accounts, expected_mint)
    } else {
        distribute_all_winnings_handler(session, game_server, winning_team, accounts, expected_mint)
    }
}

/// The winner-takes-all law: when it settles, there is one transfer per
/// usable slot of the winning team, every one pays exactly twice the
/// session bet, and every one goes to a declared winner seated on the
/// winning team.
pub proof fn lemma_wta_doubles_stake(
    s: GameSession,
    caller: PlayerId,
    winning_team: u8,
    accounts: Seq<AccountEntry>,
    mint: PlayerId,
)
    requires
        spec_distribute_all(s, caller, winning_team, accounts, mint) is Ok,
    ensures
        ({
            let ps = spec_distribute_all(s, caller, winning_team, accounts, mint)->Ok_0;
            &&& ps.len() == s.game_mode.spec_players_per_team()
            &&& forall|j: int| 0 <= j < ps.len() ==> (#[trigger] ps[j]).amount == 2 * s.session_bet
            &&& forall|j: int|
                0 <= j < ps.len() ==> spec_on_winning_team(s, winning_team, (#[trigger] ps[j]).player)
        }),
{
    lemma_wta_from_exact(s, winning_team, accounts, mint, 0);
}

/// Induction step for [`lemma_wta_doubles_stake`], over the account
/// pairs from `j` on.
proof fn lemma_wta_from_exact(
    s: GameSession,
    winning_team: u8,
    accounts: Seq<AccountEntry>,
    mint: PlayerId,
    j: int,
)
    requires
        0 <= j,
        spec_wta_from(s, winning_team, accounts, mint, j) is Ok,
    ensures
        ({
            let n = s.game_mode.spec_players_per_team() as int;
            let ps = spec_wta_from(s, winning_team, accounts, mint, j)->Ok_0;
            &&& ps.len() == if j <= n {
                n - j
            } else {
                0
            }
            &&& forall|k: int| 0 <= k < ps.len() ==> (#[trigger] ps[k]).amount == 2 * s.session_bet
            &&& forall|k: int|
                0 <= k < ps.len() ==> spec_on_winning_team(s, winning_team, (#[trigger] ps[k]).player)
        }),
    decreases s.game_mode.spec_players_per_team() - j,
{
    let n = s.game_mode.spec_players_per_team() as int;
    if j < n {
        lemma_wta_from_exact(s, winning_team, accounts, mint, j + 1);
        let ps = spec_wta_from(s, winning_team, accounts, mint, j)->Ok_0;
        let rest = spec_wta_from(s, winning_team, accounts, mint, j + 1)->Ok_0;
        assert forall|k: int| 0 <= k < ps.len() implies (#[trigger] ps[k]).amount == 2
            * s.session_bet && spec_on_winning_team(s, winning_team, ps[k].player) by {
            if k > 0 {
                assert(ps[k] == rest[k - 1]);
            }
        }
    }
}

/// The pay-to-spawn earnings law: every transfer of a settled
/// pay-to-spawn distribution pays its player exactly their kills plus
/// remaining spawns, valued at the session bet and divided by ten with
/// truncation — and only positive earnings are paid at all.
pub proof fn lemma_earnings_formula(
    s: GameSession,
    caller: PlayerId,
    accounts: Seq<AccountEntry>,
    mint: PlayerId,
)
    requires
        spec_distribute_earnings(s, caller, accounts, mint) is Ok,
    ensures
        ({
            let ps = spec_distribute_earnings(s, caller, accounts, mint)->Ok_0;
            forall|j: int|
                0 <= j < ps.len() ==> {
                    let pay = #[trigger] ps[j];
                    &&& s.spec_kills_and_spawns(pay.player) is Some
                    &&& pay.amount == s.spec_kills_and_spawns(pay.player)->Some_0 * s.session_bet
                        / 10
                    &&& pay.amount > 0
                }
        }),
{
    lemma_earnings_from_formula(s, accounts, mint, 0);
}

/// Induction step for [`lemma_earnings_formula`], over the roster
/// suffix starting at `i`.
proof fn lemma_earnings_from_formula(
    s: GameSession,
    accounts: Seq<AccountEntry>,
    mint: PlayerId,
    i: int,
)
    requires
        0 <= i <= 10,
        spec_earnings_from(s, accounts, mint, i) is Ok,
    ensures
        ({
            let ps = spec_earnings_from(s, accounts, mint, i)->Ok_0;
            forall|j: int|
                0 <= j < ps.len() ==> {
                    let pay = #[trigger] ps[j];
                    &&& s.spec_kills_and_spawns(pay.player) is Some
                    &&& pay.amount == s.spec_kills_and_spawns(pay.player)->Some_0 * s.session_bet
                        / 10
                    &&& pay.amount > 0
                }
        }),
    decreases 10 - i,
{
    if i < 10 {
        let ps = spec_earnings_from(s, accounts, mint, i)->Ok_0;
        if spec_earnings_from(s, accounts, mint, i) == spec_earnings_from(s, accounts, mint, i + 1) {
            lemma_earnings_from_formula(s, accounts, mint, i + 1);
        } else {
            lemma_earnings_from_formula(s, accounts, mint, i + 1);
            let rest = spec_earnings_from(s, accounts, mint, i + 1)->Ok_0;
            if ps.len() > rest.len() {
                assert forall|j: int| 0 <= j < ps.len() implies {
                    let pay = #[trigger] ps[j];
                    &&& s.spec_kills_and_spawns(pay.player) is Some
                    &&& pay.amount == s.spec_kills_and_spawns(pay.player)->Some_0 * s.session_bet
                        / 10
                    &&& pay.amount > 0
                } by {
                    if j > 0 {
                        assert(ps[j] == rest[j - 1]);
                    }
                }
            }
        }
    }
}

} // verus!
