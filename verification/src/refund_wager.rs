//! Refund settlement: hand every seated player their stake back and
//! close the session.

use vstd::prelude::*;

use crate::accounts::{
    find_account_pair, lemma_find_pair_from, spec_find_pair, AccountEntry, Payout,
};
use crate::errors::WagerError;
use crate::player::PlayerId;
use crate::state::{lemma_wf_any_status, GameSession, GameStatus};

verus! {

broadcast use vstd::array::group_array_axioms;

/// The refunds owed to the roster players from index `i` on: one session
/// bet per seated player, in roster order, sentinel slots skipped; or
/// the first validation failure the walk meets.
pub open spec fn spec_refund_from(
    s: GameSession,
    accounts: Seq<AccountEntry>,
    mint: PlayerId,
    i: int,
) -> Result<Seq<Payout>, WagerError>
    decreases 10 - i,
    when 0 <= i <= 10
{
    if i >= 10 {
        Ok(Seq::empty())
    } else {
        let p = s.all_players_seq()[i];
        if p.is_sentinel() {
            spec_refund_from(s, accounts, mint, i + 1)
        } else {
            match spec_find_pair(accounts, p) {
                None => Err(WagerError::InvalidPlayer),
                Some(q) => match accounts[2 * q + 1].token {
                    None => Err(WagerError::InvalidRemainingAccounts),
                    Some(tok) => if tok.owner != p {
                        Err(WagerError::InvalidPlayerTokenAccount)
                    } else if tok.mint != mint {
                        Err(WagerError::InvalidTokenMint)
                    } else {
                        match spec_refund_from(s, accounts, mint, i + 1) {
                            Ok(rest) => Ok(
                                seq![
                                    Payout {
                                        player: p,
                                        account_index: (2 * q + 1) as usize,
                                        amount: s.session_bet,
                                    },
                                ] + rest,
                            ),
                            Err(e) => Err(e),
                        }
                    },
                },
            }
        }
    }
}

/// What a refund call yields: the guards in order — authority, an open
/// session, a non-empty list of account pairs — then the walk over the
/// whole roster.
pub open spec fn spec_refund(
    s: GameSession,
    accounts: Seq<AccountEntry>,
    mint: PlayerId,
    caller: PlayerId,
) -> Result<Seq<Payout>, WagerError> {
    if caller != s.authority {
        Err(WagerError::UnauthorizedDistribution)
    } else if s.status == GameStatus::Completed {
        Err(WagerError::InvalidGameState)
    } else if accounts.len() == 0 || accounts.len() % 2 != 0 {
        Err(WagerError::InvalidRemainingAccounts)
    } else {
        spec_refund_from(s, accounts, mint, 0)
    }
}

/// Refunds exactly the session bet to every seated player, skipping
/// sentinel slots without error, and marks the session completed.  The
/// returned transfers are what the caller must perform out of the vault;
/// on any failure nothing is owed and the session is unchanged.
///
/// Authority-only; a session already completed is rejected, so settling
/// twice is impossible.
pub fn refund_wager_handler(
    session: &mut GameSession,
    game_server: PlayerId,
    accounts: &Vec<AccountEntry>,
    expected_mint: PlayerId,
) -> (r: Result<Vec<Payout>, WagerError>)
    ensures
        old(session).status.rank() <= final(session).status.rank(),
        r is Err ==> *final(session) == *old(session),
        match spec_refund(*old(session), accounts@, expected_mint, game_server) {
            Ok(ps) => r is Ok && r->Ok_0@ == ps && *final(session) == GameSession {
                status: GameStatus::Completed,
                ..*old(session)
            },
            Err(e) => r == Err::<Vec<Payout>, WagerError>(e),
        },
        old(session).status == GameStatus::Completed ==> r is Err,
        (old(session).status == GameStatus::Completed && game_server == old(session).authority)
            ==> r == Err::<Vec<Payout>, WagerError>(WagerError::InvalidGameState),
        old(session).wf() ==> final(session).wf(),
{
    let ghost s0 = *session;
    if !game_server.key_eq(&session.authority) {
        return Err(WagerError::UnauthorizedDistribution);
    }
    let completed = match session.status {
        GameStatus::Completed => true,
        _ => false,
    };
    if completed {
        return Err(WagerError::InvalidGameState);
    }
    if accounts.len() == 0 {
        return Err(WagerError::InvalidRemainingAccounts);
    }
    if accounts.len() % 2 != 0 {
        return Err(WagerError::InvalidRemainingAccounts);
    }
    let players = session.get_all_players();
    let refund = session.session_bet;
    let mut payouts: Vec<Payout> = Vec::new();
    let mut i: usize = 0;
    while i < 10
        invariant
            0 <= i <= 10,
            s0 == *old(session),
            *session == s0,
            players@ == s0.all_players_seq(),
            players@.len() == 10,
            refund == s0.session_bet,
            accounts@.len() <= usize::MAX,
            game_server == s0.authority,
            s0.status != GameStatus::Completed,
            accounts@.len() > 0,
            accounts@.len() % 2 == 0,
            match spec_refund_from(s0, accounts@, expected_mint, i as int) {
                Ok(rest) => spec_refund_from(s0, accounts@, expected_mint, 0) == Ok::<
                    Seq<Payout>,
                    WagerError,
                >(payouts@ + rest),
                Err(e) => spec_refund_from(s0, accounts@, expected_mint, 0) == Err::<
                    Seq<Payout>,
                    WagerError,
                >(e),
            },
        decreases 10 - i,
    {
        let ghost gi = i as int;
        let player = players[i];
        if player.is_empty_key() {
            i += 1;
            continue ;
        }
        let pair_index = match find_account_pair(accounts, &player) {
            Some(q) => q,
            None => {
                proof {
                    assert(spec_refund_from(s0, accounts@, expected_mint, gi) == Err::<
                        Seq<Payout>,
                        WagerError,
                    >(WagerError::InvalidPlayer));
                }
                return Err(WagerError::InvalidPlayer);
            },
        };
        proof {
            lemma_find_pair_from(accounts@, player, 0);
            assert(2 * (pair_index as int) + 1 < accounts@.len());
        }
        let token_index = 2 * pair_index + 1;
        let token = match &accounts[token_index].token {
            Some(t) => *t,
            None => {
                proof {
                    assert(spec_refund_from(s0, accounts@, expected_mint, gi) == Err::<
                        Seq<Payout>,
                        WagerError,
                    >(WagerError::InvalidRemainingAccounts));
                }
                return Err(WagerError::InvalidRemainingAccounts);
            },
        };
        if !token.owner.key_eq(&player) {
            proof {
                assert(spec_refund_from(s0, accounts@, expected_mint, gi) == Err::<
                    Seq<Payout>,
                    WagerError,
                >(WagerError::InvalidPlayerTokenAccount));
            }
            return Err(WagerError::InvalidPlayerTokenAccount);
        }
        if !token.mint.key_eq(&expected_mint) {
            proof {
                assert(spec_refund_from(s0, accounts@, expected_mint, gi) == Err::<
                    Seq<Payout>,
                    WagerError,
                >(WagerError::InvalidTokenMint));
            }
            return Err(WagerError::InvalidTokenMint);
        }
        let ghost payouts_before = payouts@;
        payouts.push(Payout { player, account_index: token_index, amount: refund });
        proof {
            let pay = Payout {
                player,
                account_index: token_index,
                amount: s0.session_bet,
            };
            match spec_refund_from(s0, accounts@, expected_mint, gi + 1) {
                Ok(rest) => {
                    assert(spec_refund_from(s0, accounts@, expected_mint, gi) == Ok::<
                        Seq<Payout>,
                        WagerError,
                    >(seq![pay] + rest));
                    assert(payouts_before + (seq![pay] + rest) =~= payouts@ + rest);
                },
                Err(e) => {
                    assert(spec_refund_from(s0, accounts@, expected_mint, gi) == Err::<
                        Seq<Payout>,
                        WagerError,
                    >(e));
                },
            }
        }
        i += 1;
    }
    session.status = GameStatus::Completed;
    proof {
        assert(spec_refund_from(s0, accounts@, expected_mint, 10) == Ok::<Seq<Payout>, WagerError>(
            Seq::empty(),
        ));
        assert(payouts@ + Seq::<Payout>::empty() =~= payouts@);
        assert(*session =~= GameSession { status: GameStatus::Completed, ..s0 });
        if s0.wf() {
            lemma_wf_any_status(s0, GameStatus::Completed);
            assert(session.wf());
        }
    }
    Ok(payouts)
}

/// The account pair for `p` resolves and passes every check: it exists,
/// parses as a token account, is owned by `p` and carries the expected
/// token.
pub open spec fn spec_pair_valid(accounts: Seq<AccountEntry>, mint: PlayerId, p: PlayerId) -> bool {
    match spec_find_pair(accounts, p) {
        Some(q) => match accounts[2 * q + 1].token {
            Some(tok) => tok.owner == p && tok.mint == mint,
            None => false,
        },
        None => false,
    }
}

/// The refund law, success side: an authorized refund of an open session
/// settles whenever every seated player has a valid account pair — the
/// sentinel slots never stand in the way.
pub proof fn lemma_refund_settles(
    s: GameSession,
    accounts: Seq<AccountEntry>,
    mint: PlayerId,
    caller: PlayerId,
)
    requires
        caller == s.authority,
        s.status != GameStatus::Completed,
        accounts.len() > 0,
        accounts.len() % 2 == 0,
        forall|k: int|
            0 <= k < 10 && !(#[trigger] s.all_players_seq()[k]).is_sentinel() ==> spec_pair_valid(
                accounts,
                mint,
                s.all_players_seq()[k],
            ),
    ensures
        spec_refund(s, accounts, mint, caller) is Ok,
{
    lemma_refund_from_succeeds(s, accounts, mint, 0);
}

/// Induction step for [`lemma_refund_settles`], over the roster suffix
/// starting at `i`.
proof fn lemma_refund_from_succeeds(
    s: GameSession,
    accounts: Seq<AccountEntry>,
    mint: PlayerId,
    i: int,
)
    requires
        0 <= i <= 10,
        forall|k: int|
            i <= k < 10 && !(#[trigger] s.all_players_seq()[k]).is_sentinel() ==> spec_pair_valid(
                accounts,
                mint,
                s.all_players_seq()[k],
            ),
    ensures
        spec_refund_from(s, accounts, mint, i) is Ok,
    decreases 10 - i,
{
    if i < 10 {
        lemma_refund_from_succeeds(s, accounts, mint, i + 1);
    }
}

/// The refund law: when a refund settles, its transfers list exactly the
/// seated players, in roster order — every sentinel slot is skipped —
/// and each of them is owed exactly one session bet.
pub proof fn lemma_refund_exact(
    s: GameSession,
    accounts: Seq<AccountEntry>,
    mint: PlayerId,
    caller: PlayerId,
)
    requires
        spec_refund(s, accounts, mint, caller) is Ok,
    ensures
        ({
            let ps = spec_refund(s, accounts, mint, caller)->Ok_0;
            &&& ps.map_values(|pay: Payout| pay.player) == s.all_players_seq().filter(
                |p: PlayerId| !p.is_sentinel(),
            )
            &&& forall|j: int| 0 <= j < ps.len() ==> (#[trigger] ps[j]).amount == s.session_bet
        }),
{
    lemma_refund_from_exact(s, accounts, mint, 0);
    assert(s.all_players_seq().skip(0) =~= s.all_players_seq());
}

/// Induction step for [`lemma_refund_exact`], over the roster suffix
/// starting at `i`.
proof fn lemma_refund_from_exact(s: GameSession, accounts: Seq<AccountEntry>, mint: PlayerId, i: int)
    requires
        0 <= i <= 10,
        spec_refund_from(s, accounts, mint, i) is Ok,
        s.all_players_seq().len() == 10,
    ensures
        ({
            let ps = spec_refund_from(s, accounts, mint, i)->Ok_0;
            &&& ps.map_values(|pay: Payout| pay.player) == s.all_players_seq().skip(i).filter(
                |p: PlayerId| !p.is_sentinel(),
            )
            &&& forall|j: int| 0 <= j < ps.len() ==> (#[trigger] ps[j]).amount == s.session_bet
        }),
    decreases 10 - i,
{
    broadcast use vstd::seq_lib::group_seq_lib_default;

    let all = s.all_players_seq();
    let pred = |p: PlayerId| !p.is_sentinel();
    let proj = |pay: Payout| pay.player;
    if i >= 10 {
        assert(all.skip(10) =~= Seq::<PlayerId>::empty());
        assert(Seq::<PlayerId>::empty().filter(pred) =~= Seq::<PlayerId>::empty());
        assert(Seq::<Payout>::empty().map_values(proj) =~= Seq::<PlayerId>::empty());
    } else {
        lemma_refund_from_exact(s, accounts, mint, i + 1);
        let rest = spec_refund_from(s, accounts, mint, i + 1)->Ok_0;
        assert(all.skip(i) =~= seq![all[i]] + all.skip(i + 1));
        Seq::filter_distributes_over_add(seq![all[i]], all.skip(i + 1), pred);
        assert(seq![all[i]].filter(pred) =~= if pred(all[i]) {
            seq![all[i]]
        } else {
            Seq::<PlayerId>::empty()
        }) by {
            reveal_with_fuel(Seq::filter, 2);
            assert(seq![all[i]].drop_last() =~= Seq::<PlayerId>::empty());
        }
        if all[i].is_sentinel() {
            assert(all.skip(i).filter(pred) =~= all.skip(i + 1).filter(pred));
        } else {
            let ps = spec_refund_from(s, accounts, mint, i)->Ok_0;
            assert(ps =~= seq![ps[0]] + rest);
            assert(ps.map_values(proj) =~= seq![all[i]] + rest.map_values(proj));
            assert(all.skip(i).filter(pred) =~= seq![all[i]] + all.skip(i + 1).filter(pred));
        }
    }
}

} // verus!
