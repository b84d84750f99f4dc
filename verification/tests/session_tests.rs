//! The session state machine: creation, joining, kills and spawn
//! purchases.

use wager_program::create_game_session::create_game_session_handler;
use wager_program::errors::WagerError;
use wager_program::join_user::join_user_handler;
use wager_program::pay_to_spawn::pay_to_spawn_handler;
use wager_program::player::PlayerId;
use wager_program::record_kill::record_kill_handler;
use wager_program::state::{GameMode, GameSession, GameStatus};

fn key(n: u8) -> PlayerId {
    let mut bytes = [0u8; 32];
    bytes[0] = n;
    PlayerId { bytes }
}

fn authority() -> PlayerId {
    key(99)
}

fn new_session(mode: GameMode, bet: u64) -> GameSession {
    create_game_session_handler(String::from("session_1"), authority(), bet, mode, 1700000000, 251, 252)
}

/// A running 1v1 session with player `key(1)` on team 0 and `key(2)` on
/// team 1.
fn running_1v1(mode: GameMode, bet: u64) -> GameSession {
    let mut s = new_session(mode, bet);
    join_user_handler(&mut s, key(1), 0).unwrap();
    join_user_handler(&mut s, key(2), 1).unwrap();
    assert_eq!(s.status, GameStatus::InProgress);
    s
}

#[test]
fn test_create_session_initial_state() {
    let s = new_session(GameMode::WinnerTakesAllThreeVsThree, 500);
    assert_eq!(s.status, GameStatus::WaitingForPlayers);
    assert_eq!(s.session_bet, 500);
    assert_eq!(s.authority, authority());
    assert_eq!(s.created_at, 1700000000);
    for i in 0..5 {
        assert!(s.team_a.players[i].is_empty_key());
        assert!(s.team_b.players[i].is_empty_key());
        assert_eq!(s.team_a.player_spawns[i], 0);
        assert_eq!(s.team_b.player_kills[i], 0);
    }
}

#[test]
fn test_players_per_team() {
    assert_eq!(GameMode::WinnerTakesAllOneVsOne.players_per_team(), 1);
    assert_eq!(GameMode::WinnerTakesAllThreeVsThree.players_per_team(), 3);
    assert_eq!(GameMode::WinnerTakesAllFiveVsFive.players_per_team(), 5);
    assert_eq!(GameMode::PayToSpawnOneVsOne.players_per_team(), 1);
    assert_eq!(GameMode::PayToSpawnThreeVsThree.players_per_team(), 3);
    assert_eq!(GameMode::PayToSpawnFiveVsFive.players_per_team(), 5);
}

#[test]
fn test_join_fills_first_slot() {
    let mut s = new_session(GameMode::WinnerTakesAllThreeVsThree, 100);
    let r = join_user_handler(&mut s, key(1), 0);
    assert_eq!(r, Ok(100));
    assert_eq!(s.team_a.players[0], key(1));
    assert_eq!(s.team_a.player_spawns[0], 10);
    assert_eq!(s.team_a.player_kills[0], 0);
    assert!(s.team_a.players[1].is_empty_key());
}

#[test]
fn test_join_one_v_one_transitions_on_second_join() {
    let mut s = new_session(GameMode::WinnerTakesAllOneVsOne, 100);
    join_user_handler(&mut s, key(1), 0).unwrap();
    assert_eq!(s.status, GameStatus::WaitingForPlayers);
    join_user_handler(&mut s, key(2), 1).unwrap();
    assert_eq!(s.status, GameStatus::InProgress);
}

#[test]
fn test_join_full_team_fails() {
    let mut s = new_session(GameMode::WinnerTakesAllOneVsOne, 100);
    join_user_handler(&mut s, key(1), 0).unwrap();
    let r = join_user_handler(&mut s, key(2), 0);
    assert_eq!(r, Err(WagerError::TeamIsFull));
    assert_eq!(s.status, GameStatus::WaitingForPlayers);
}

#[test]
fn test_join_duplicate_player_fails() {
    let mut s = new_session(GameMode::WinnerTakesAllThreeVsThree, 100);
    join_user_handler(&mut s, key(1), 0).unwrap();
    assert_eq!(join_user_handler(&mut s, key(1), 0), Err(WagerError::InvalidPlayer));
    assert_eq!(join_user_handler(&mut s, key(1), 1), Err(WagerError::InvalidPlayer));
    assert!(s.team_a.players[1].is_empty_key());
    assert!(s.team_b.players[0].is_empty_key());
    assert_eq!(s.status, GameStatus::WaitingForPlayers);
    assert_eq!(join_user_handler(&mut s, key(2), 1), Ok(100));
}

#[test]
fn test_join_wrong_state_fails() {
    let mut s = running_1v1(GameMode::WinnerTakesAllOneVsOne, 100);
    let r = join_user_handler(&mut s, key(3), 1);
    assert_eq!(r, Err(WagerError::InvalidGameState));
}

#[test]
fn test_join_invalid_team_selector() {
    let mut s = new_session(GameMode::WinnerTakesAllOneVsOne, 100);
    let r = join_user_handler(&mut s, key(1), 2);
    assert_eq!(r, Err(WagerError::InvalidTeamSelection));
}

#[test]
fn test_record_kill_updates_counters() {
    let mut s = running_1v1(GameMode::WinnerTakesAllOneVsOne, 100);
    let r = record_kill_handler(&mut s, authority(), 0, key(1), 1, key(2));
    assert_eq!(r, Ok(()));
    assert_eq!(s.team_a.player_kills[0], 1);
    assert_eq!(s.team_a.player_spawns[0], 10);
    assert_eq!(s.team_b.player_kills[0], 0);
    assert_eq!(s.team_b.player_spawns[0], 9);
}

#[test]
fn test_record_kill_unauthorized() {
    let mut s = running_1v1(GameMode::WinnerTakesAllOneVsOne, 100);
    let r = record_kill_handler(&mut s, key(1), 0, key(1), 1, key(2));
    assert_eq!(r, Err(WagerError::UnauthorizedKill));
    assert_eq!(s.team_a.player_kills[0], 0);
}

#[test]
fn test_record_kill_unknown_player() {
    let mut s = running_1v1(GameMode::WinnerTakesAllOneVsOne, 100);
    let r = record_kill_handler(&mut s, authority(), 0, key(7), 1, key(2));
    assert_eq!(r, Err(WagerError::PlayerNotFound));
}

#[test]
fn test_record_kill_invalid_team_selector() {
    let mut s = running_1v1(GameMode::WinnerTakesAllOneVsOne, 100);
    let r = record_kill_handler(&mut s, authority(), 3, key(1), 1, key(2));
    assert_eq!(r, Err(WagerError::InvalidTeam));
}

#[test]
fn test_record_kill_requires_in_progress() {
    // An empty waiting session knows neither player.
    let mut s = new_session(GameMode::WinnerTakesAllOneVsOne, 100);
    let r = record_kill_handler(&mut s, authority(), 0, key(1), 1, key(2));
    assert!(r.is_err());
}

#[test]
fn test_record_kill_victim_out_of_spawns() {
    let mut s = running_1v1(GameMode::WinnerTakesAllOneVsOne, 100);
    for _ in 0..10 {
        record_kill_handler(&mut s, authority(), 0, key(1), 1, key(2)).unwrap();
    }
    assert_eq!(s.team_b.player_spawns[0], 0);
    let r = record_kill_handler(&mut s, authority(), 0, key(1), 1, key(2));
    assert_eq!(r, Err(WagerError::PlayerHasNoSpawns));
    assert_eq!(s.team_a.player_kills[0], 10);
    assert_eq!(s.team_b.player_spawns[0], 0);
}

#[test]
fn test_pay_to_spawn_adds_ten() {
    let mut s = running_1v1(GameMode::PayToSpawnOneVsOne, 100);
    let r = pay_to_spawn_handler(&mut s, key(1), 0);
    assert_eq!(r, Ok(100));
    assert_eq!(s.team_a.player_spawns[0], 20);
    let r2 = pay_to_spawn_handler(&mut s, key(1), 0);
    assert_eq!(r2, Ok(100));
    assert_eq!(s.team_a.player_spawns[0], 30);
}

#[test]
fn test_pay_to_spawn_wrong_mode() {
    let mut s = running_1v1(GameMode::WinnerTakesAllOneVsOne, 100);
    let r = pay_to_spawn_handler(&mut s, key(1), 0);
    assert_eq!(r, Err(WagerError::InvalidGameState));
}

#[test]
fn test_pay_to_spawn_requires_in_progress() {
    let mut s = new_session(GameMode::PayToSpawnOneVsOne, 100);
    join_user_handler(&mut s, key(1), 0).unwrap();
    let r = pay_to_spawn_handler(&mut s, key(1), 0);
    assert_eq!(r, Err(WagerError::InvalidGameState));
}

#[test]
fn test_pay_to_spawn_unknown_player() {
    let mut s = running_1v1(GameMode::PayToSpawnOneVsOne, 100);
    let r = pay_to_spawn_handler(&mut s, key(7), 0);
    assert_eq!(r, Err(WagerError::PlayerNotFound));
}

#[test]
fn test_pay_to_spawn_counter_overflow_rejected() {
    let mut s = running_1v1(GameMode::PayToSpawnOneVsOne, 100);
    let mut bought = 0u32;
    loop {
        match pay_to_spawn_handler(&mut s, key(1), 0) {
            Ok(_) => bought += 1,
            Err(e) => {
                assert_eq!(e, WagerError::ArithmeticError);
                break;
            }
        }
    }
    // Starting at 10, each purchase adds 10 up to the 16-bit ceiling.
    assert_eq!(bought, 6552);
    assert_eq!(s.team_a.player_spawns[0], 65530);
}

#[test]
fn test_five_v_five_starts_on_tenth_join() {
    let mut s = new_session(GameMode::PayToSpawnFiveVsFive, 10);
    for n in 0..5 {
        assert_eq!(s.status, GameStatus::WaitingForPlayers);
        join_user_handler(&mut s, key(10 + n), 0).unwrap();
        assert_eq!(s.status, GameStatus::WaitingForPlayers);
        join_user_handler(&mut s, key(20 + n), 1).unwrap();
    }
    assert_eq!(s.status, GameStatus::InProgress);
    for i in 0..5 {
        assert_eq!(s.team_a.players[i], key(10 + i as u8));
        assert_eq!(s.team_b.players[i], key(20 + i as u8));
    }
}

#[test]
fn test_get_all_players_keeps_sentinels_and_order() {
    let mut s = new_session(GameMode::WinnerTakesAllThreeVsThree, 100);
    join_user_handler(&mut s, key(1), 0).unwrap();
    join_user_handler(&mut s, key(2), 1).unwrap();
    let all = s.get_all_players();
    assert_eq!(all.len(), 10);
    assert_eq!(all[0], key(1));
    assert_eq!(all[5], key(2));
    for i in [1, 2, 3, 4, 6, 7, 8, 9] {
        assert!(all[i].is_empty_key());
    }
}

#[test]
fn test_get_player_index_and_lookup_errors() {
    let mut s = new_session(GameMode::WinnerTakesAllThreeVsThree, 100);
    join_user_handler(&mut s, key(1), 0).unwrap();
    join_user_handler(&mut s, key(4), 0).unwrap();
    assert_eq!(s.get_player_index(0, key(4)), Ok(1));
    assert_eq!(s.get_player_index(1, key(4)), Err(WagerError::PlayerNotFound));
    assert_eq!(s.get_player_index(2, key(4)), Err(WagerError::InvalidTeam));
}

#[test]
fn test_get_kills_and_spawns_sums_both_counters() {
    let mut s = running_1v1(GameMode::PayToSpawnOneVsOne, 100);
    record_kill_handler(&mut s, authority(), 0, key(1), 1, key(2)).unwrap();
    assert_eq!(s.get_kills_and_spawns(key(1)), Ok(11));
    assert_eq!(s.get_kills_and_spawns(key(2)), Ok(9));
    assert_eq!(s.get_kills_and_spawns(key(7)), Err(WagerError::PlayerNotFound));
}

#[test]
fn test_check_all_filled_and_empty_slot() {
    let mut s = new_session(GameMode::WinnerTakesAllOneVsOne, 100);
    assert_eq!(s.check_all_filled(), Ok(false));
    assert_eq!(s.get_player_empty_slot(0), Ok(0));
    assert_eq!(s.get_player_empty_slot(2), Err(WagerError::InvalidTeam));
    join_user_handler(&mut s, key(1), 0).unwrap();
    assert_eq!(s.get_player_empty_slot(0), Err(WagerError::TeamIsFull));
    assert_eq!(s.check_all_filled(), Ok(false));
    join_user_handler(&mut s, key(2), 1).unwrap();
    assert_eq!(s.check_all_filled(), Ok(true));
}

#[test]
fn test_error_messages() {
    assert_eq!(WagerError::TeamIsFull.message(), "Team is already full");
    assert_eq!(WagerError::GameNotInProgress.message(), "Game is not in progress");
}
