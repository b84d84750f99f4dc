//! The settlement engine: winner-takes-all, pay-to-spawn earnings, and
//! refunds.

use wager_program::accounts::{AccountEntry, Payout, TokenAccountInfo};
use wager_program::create_game_session::create_game_session_handler;
use wager_program::distribute_winnings::{
    distribute_all_winnings_handler, distribute_pay_spawn_earnings, distribute_winnings,
};
use wager_program::errors::WagerError;
use wager_program::join_user::join_user_handler;
use wager_program::pay_to_spawn::pay_to_spawn_handler;
use wager_program::player::PlayerId;
use wager_program::record_kill::record_kill_handler;
use wager_program::refund_wager::refund_wager_handler;
use wager_program::state::{GameMode, GameSession, GameStatus};

fn key(n: u8) -> PlayerId {
    let mut bytes = [0u8; 32];
    bytes[0] = n;
    PlayerId { bytes }
}

fn authority() -> PlayerId {
    key(99)
}

fn mint() -> PlayerId {
    key(200)
}

fn new_session(mode: GameMode, bet: u64) -> GameSession {
    create_game_session_handler(String::from("session_1"), authority(), bet, mode, 1700000000, 251, 252)
}

fn running_1v1(mode: GameMode, bet: u64) -> GameSession {
    let mut s = new_session(mode, bet);
    join_user_handler(&mut s, key(1), 0).unwrap();
    join_user_handler(&mut s, key(2), 1).unwrap();
    s
}

/// A well-formed (player, payout token account) pair for `p`.
fn pair_for(p: PlayerId) -> [AccountEntry; 2] {
    [
        AccountEntry { key: p, token: None },
        AccountEntry { key: key(250), token: Some(TokenAccountInfo { owner: p, mint: mint() }) },
    ]
}

fn pairs_for(players: &[PlayerId]) -> Vec<AccountEntry> {
    let mut v = Vec::new();
    for p in players {
        v.extend_from_slice(&pair_for(*p));
    }
    v
}

#[test]
fn test_wta_single_winner_gets_double() {
    let mut s = running_1v1(GameMode::WinnerTakesAllOneVsOne, 100);
    let accounts = pairs_for(&[key(1)]);
    let r = distribute_all_winnings_handler(&mut s, authority(), 0, &accounts, mint()).unwrap();
    assert_eq!(
        r,
        vec![Payout { player: key(1), account_index: 1, amount: 200 }]
    );
    assert_eq!(s.status, GameStatus::Completed);
}

#[test]
fn test_wta_pays_every_winning_slot() {
    let mut s = new_session(GameMode::WinnerTakesAllThreeVsThree, 100);
    for (i, p) in [(0u8, key(1)), (0, key(3)), (0, key(5)), (1, key(2)), (1, key(4)), (1, key(6))] {
        join_user_handler(&mut s, p, i).unwrap();
    }
    assert_eq!(s.status, GameStatus::InProgress);
    let accounts = pairs_for(&[key(2), key(4), key(6)]);
    let r = distribute_all_winnings_handler(&mut s, authority(), 1, &accounts, mint()).unwrap();
    assert_eq!(r.len(), 3);
    for (j, p) in [key(2), key(4), key(6)].into_iter().enumerate() {
        assert_eq!(r[j], Payout { player: p, account_index: 2 * j + 1, amount: 200 });
    }
}

#[test]
fn test_wta_owner_mismatch_fails() {
    let mut s = running_1v1(GameMode::WinnerTakesAllOneVsOne, 100);
    let accounts = vec![
        AccountEntry { key: key(1), token: None },
        AccountEntry { key: key(250), token: Some(TokenAccountInfo { owner: key(2), mint: mint() }) },
    ];
    let r = distribute_all_winnings_handler(&mut s, authority(), 0, &accounts, mint());
    assert_eq!(r, Err(WagerError::InvalidWinnerTokenAccount));
    assert_eq!(s.status, GameStatus::InProgress);
}

#[test]
fn test_wta_wrong_mint_fails() {
    let mut s = running_1v1(GameMode::WinnerTakesAllOneVsOne, 100);
    let accounts = vec![
        AccountEntry { key: key(1), token: None },
        AccountEntry { key: key(250), token: Some(TokenAccountInfo { owner: key(1), mint: key(7) }) },
    ];
    let r = distribute_all_winnings_handler(&mut s, authority(), 0, &accounts, mint());
    assert_eq!(r, Err(WagerError::InvalidTokenMint));
}

#[test]
fn test_wta_unparsed_token_account_fails() {
    let mut s = running_1v1(GameMode::WinnerTakesAllOneVsOne, 100);
    let accounts = vec![
        AccountEntry { key: key(1), token: None },
        AccountEntry { key: key(250), token: None },
    ];
    let r = distribute_all_winnings_handler(&mut s, authority(), 0, &accounts, mint());
    assert_eq!(r, Err(WagerError::InvalidRemainingAccounts));
}

#[test]
fn test_wta_non_winner_in_list_fails() {
    let mut s = running_1v1(GameMode::WinnerTakesAllOneVsOne, 100);
    let accounts = pairs_for(&[key(2)]);
    let r = distribute_all_winnings_handler(&mut s, authority(), 0, &accounts, mint());
    assert_eq!(r, Err(WagerError::InvalidWinner));
}

#[test]
fn test_wta_unauthorized_fails() {
    let mut s = running_1v1(GameMode::WinnerTakesAllOneVsOne, 100);
    let accounts = pairs_for(&[key(1)]);
    let r = distribute_all_winnings_handler(&mut s, key(1), 0, &accounts, mint());
    assert_eq!(r, Err(WagerError::UnauthorizedDistribution));
}

#[test]
fn test_wta_invalid_team_selector_fails() {
    let mut s = running_1v1(GameMode::WinnerTakesAllOneVsOne, 100);
    let accounts = pairs_for(&[key(1)]);
    let r = distribute_all_winnings_handler(&mut s, authority(), 2, &accounts, mint());
    assert_eq!(r, Err(WagerError::InvalidWinningTeam));
}

#[test]
fn test_wta_short_account_list_fails() {
    let mut s = new_session(GameMode::WinnerTakesAllThreeVsThree, 100);
    join_user_handler(&mut s, key(1), 0).unwrap();
    let accounts = pairs_for(&[key(1)]);
    let r = distribute_all_winnings_handler(&mut s, authority(), 0, &accounts, mint());
    assert_eq!(r, Err(WagerError::InvalidRemainingAccounts));
}

#[test]
fn test_wta_pot_overflow_fails() {
    let bet = u64::MAX / 2 + 1;
    let mut s = running_1v1(GameMode::WinnerTakesAllOneVsOne, bet);
    let accounts = pairs_for(&[key(1)]);
    let r = distribute_all_winnings_handler(&mut s, authority(), 0, &accounts, mint());
    assert_eq!(r, Err(WagerError::ArithmeticError));
}

#[test]
fn test_earnings_formula() {
    // kills = 3, spawns_remaining = 2, bet = 100: earnings = (3+2)*100/10.
    let mut s = running_1v1(GameMode::PayToSpawnOneVsOne, 100);
    for _ in 0..3 {
        record_kill_handler(&mut s, authority(), 0, key(1), 1, key(2)).unwrap();
    }
    for _ in 0..8 {
        record_kill_handler(&mut s, authority(), 1, key(2), 0, key(1)).unwrap();
    }
    assert_eq!(s.get_kills_and_spawns(key(1)), Ok(5));
    let accounts = pairs_for(&[key(1), key(2)]);
    let r = distribute_pay_spawn_earnings(&mut s, authority(), &accounts, mint()).unwrap();
    assert_eq!(
        r,
        vec![
            Payout { player: key(1), account_index: 1, amount: 50 },
            Payout { player: key(2), account_index: 3, amount: (8 + 7) * 100 / 10 },
        ]
    );
    assert_eq!(s.status, GameStatus::Completed);
}

#[test]
fn test_earnings_formula_truncates() {
    // bet = 99: (3+2)*99/10 = 49 with integer truncation, not 49.5.
    let mut s = running_1v1(GameMode::PayToSpawnOneVsOne, 99);
    for _ in 0..3 {
        record_kill_handler(&mut s, authority(), 0, key(1), 1, key(2)).unwrap();
    }
    for _ in 0..8 {
        record_kill_handler(&mut s, authority(), 1, key(2), 0, key(1)).unwrap();
    }
    let accounts = pairs_for(&[key(1), key(2)]);
    let r = distribute_pay_spawn_earnings(&mut s, authority(), &accounts, mint()).unwrap();
    assert_eq!(r[0], Payout { player: key(1), account_index: 1, amount: 49 });
    assert_eq!(r[1], Payout { player: key(2), account_index: 3, amount: 148 });
}

#[test]
fn test_earnings_skips_zero_score_player() {
    // key(2) ends at zero kills and zero spawns and is skipped, not an
    // error; sentinel slots are skipped too.
    let mut s = running_1v1(GameMode::PayToSpawnOneVsOne, 100);
    for _ in 0..10 {
        record_kill_handler(&mut s, authority(), 0, key(1), 1, key(2)).unwrap();
    }
    assert_eq!(s.get_kills_and_spawns(key(2)), Ok(0));
    let accounts = pairs_for(&[key(1)]);
    let r = distribute_pay_spawn_earnings(&mut s, authority(), &accounts, mint()).unwrap();
    assert_eq!(
        r,
        vec![Payout { player: key(1), account_index: 1, amount: (10 + 10) * 100 / 10 }]
    );
}

#[test]
fn test_earnings_missing_player_fails() {
    let mut s = running_1v1(GameMode::PayToSpawnOneVsOne, 100);
    let accounts = pairs_for(&[key(1)]);
    let r = distribute_pay_spawn_earnings(&mut s, authority(), &accounts, mint());
    assert_eq!(r, Err(WagerError::InvalidPlayer));
    assert_eq!(s.status, GameStatus::InProgress);
}

#[test]
fn test_earnings_owner_mismatch_fails() {
    let mut s = running_1v1(GameMode::PayToSpawnOneVsOne, 100);
    let mut accounts = pairs_for(&[key(1), key(2)]);
    accounts[1].token = Some(TokenAccountInfo { owner: key(3), mint: mint() });
    let r = distribute_pay_spawn_earnings(&mut s, authority(), &accounts, mint());
    assert_eq!(r, Err(WagerError::InvalidPlayerTokenAccount));
}

#[test]
fn test_refund_pays_only_seated_players() {
    // A 3v3 session where only two of six slots were ever taken: exactly
    // those two players are refunded, sentinel slots cause no error.
    let mut s = new_session(GameMode::WinnerTakesAllThreeVsThree, 100);
    join_user_handler(&mut s, key(1), 0).unwrap();
    join_user_handler(&mut s, key(2), 1).unwrap();
    let accounts = pairs_for(&[key(1), key(2)]);
    let r = refund_wager_handler(&mut s, authority(), &accounts, mint()).unwrap();
    assert_eq!(
        r,
        vec![
            Payout { player: key(1), account_index: 1, amount: 100 },
            Payout { player: key(2), account_index: 3, amount: 100 },
        ]
    );
    assert_eq!(s.status, GameStatus::Completed);
}

#[test]
fn test_refund_missing_player_fails() {
    let mut s = new_session(GameMode::WinnerTakesAllThreeVsThree, 100);
    join_user_handler(&mut s, key(1), 0).unwrap();
    join_user_handler(&mut s, key(2), 1).unwrap();
    let accounts = pairs_for(&[key(1)]);
    let r = refund_wager_handler(&mut s, authority(), &accounts, mint());
    assert_eq!(r, Err(WagerError::InvalidPlayer));
    assert_eq!(s.status, GameStatus::WaitingForPlayers);
}

#[test]
fn test_refund_rejects_malformed_list() {
    let mut s = new_session(GameMode::WinnerTakesAllOneVsOne, 100);
    join_user_handler(&mut s, key(1), 0).unwrap();
    let empty: Vec<AccountEntry> = Vec::new();
    assert_eq!(
        refund_wager_handler(&mut s, authority(), &empty, mint()),
        Err(WagerError::InvalidRemainingAccounts)
    );
    let mut odd = pairs_for(&[key(1)]);
    odd.pop();
    assert_eq!(
        refund_wager_handler(&mut s, authority(), &odd, mint()),
        Err(WagerError::InvalidRemainingAccounts)
    );
}

#[test]
fn test_refund_unauthorized_fails() {
    let mut s = new_session(GameMode::WinnerTakesAllOneVsOne, 100);
    join_user_handler(&mut s, key(1), 0).unwrap();
    let accounts = pairs_for(&[key(1)]);
    let r = refund_wager_handler(&mut s, key(1), &accounts, mint());
    assert_eq!(r, Err(WagerError::UnauthorizedDistribution));
}

#[test]
fn test_settlement_already_completed_fails() {
    // Any settlement on a completed session fails and owes nothing.
    let mut s = running_1v1(GameMode::WinnerTakesAllOneVsOne, 100);
    let accounts = pairs_for(&[key(1)]);
    distribute_all_winnings_handler(&mut s, authority(), 0, &accounts, mint()).unwrap();
    assert_eq!(s.status, GameStatus::Completed);
    assert_eq!(
        distribute_all_winnings_handler(&mut s, authority(), 0, &accounts, mint()),
        Err(WagerError::InvalidGameState)
    );
    assert_eq!(
        distribute_pay_spawn_earnings(&mut s, authority(), &accounts, mint()),
        Err(WagerError::InvalidGameState)
    );
    assert_eq!(
        refund_wager_handler(&mut s, authority(), &accounts, mint()),
        Err(WagerError::InvalidGameState)
    );
    assert_eq!(
        distribute_winnings(&mut s, authority(), 0, &accounts, mint()),
        Err(WagerError::InvalidGameState)
    );
    assert_eq!(s.status, GameStatus::Completed);
}

#[test]
fn test_completed_session_rejects_play() {
    // After settlement the record is archival: no join, kill or spawn
    // purchase touches it, and the status never regresses.
    let mut s = running_1v1(GameMode::PayToSpawnOneVsOne, 100);
    let accounts = pairs_for(&[key(1), key(2)]);
    distribute_winnings(&mut s, authority(), 0, &accounts, mint()).unwrap();
    assert_eq!(s.status, GameStatus::Completed);
    assert_eq!(join_user_handler(&mut s, key(3), 0), Err(WagerError::InvalidGameState));
    assert_eq!(
        record_kill_handler(&mut s, authority(), 0, key(1), 1, key(2)),
        Err(WagerError::GameNotInProgress)
    );
    assert_eq!(pay_to_spawn_handler(&mut s, key(1), 0), Err(WagerError::InvalidGameState));
    assert_eq!(s.status, GameStatus::Completed);
}

#[test]
fn test_dispatcher_selects_by_mode() {
    // Pay-to-spawn modes settle by earnings whatever the declared
    // winner; winner-takes-all modes pay the declared winning team.
    let mut pts = running_1v1(GameMode::PayToSpawnOneVsOne, 100);
    let accounts = pairs_for(&[key(1), key(2)]);
    let r = distribute_winnings(&mut pts, authority(), 1, &accounts, mint()).unwrap();
    assert_eq!(r.len(), 2);
    assert_eq!(r[0].amount, 100);
    assert_eq!(r[1].amount, 100);

    let mut wta = running_1v1(GameMode::WinnerTakesAllOneVsOne, 100);
    let winner_accounts = pairs_for(&[key(2)]);
    let r2 = distribute_winnings(&mut wta, authority(), 1, &winner_accounts, mint()).unwrap();
    assert_eq!(r2, vec![Payout { player: key(2), account_index: 1, amount: 200 }]);
}

#[test]
fn test_status_never_regresses() {
    let mut s = new_session(GameMode::WinnerTakesAllOneVsOne, 100);
    assert_eq!(s.status, GameStatus::WaitingForPlayers);
    join_user_handler(&mut s, key(1), 0).unwrap();
    assert_eq!(s.status, GameStatus::WaitingForPlayers);
    join_user_handler(&mut s, key(2), 1).unwrap();
    assert_eq!(s.status, GameStatus::InProgress);
    record_kill_handler(&mut s, authority(), 0, key(1), 1, key(2)).unwrap();
    assert_eq!(s.status, GameStatus::InProgress);
    let accounts = pairs_for(&[key(1)]);
    distribute_all_winnings_handler(&mut s, authority(), 0, &accounts, mint()).unwrap();
    assert_eq!(s.status, GameStatus::Completed);
}
