//! The durable state of one wagering session: configuration, status,
//! team rosters and per-player counters, with the roster and counter logic.

use vstd::prelude::*;

use crate::errors::WagerError;
use crate::player::PlayerId;

verus! {

broadcast use vstd::array::group_array_axioms;

/// Game mode: the settlement algorithm paired with the team size.
#[derive(Clone, Copy, PartialEq, Eq, Structural, Debug)]
pub enum GameMode {
    WinnerTakesAllOneVsOne,
    WinnerTakesAllThreeVsThree,
    WinnerTakesAllFiveVsFive,
    PayToSpawnOneVsOne,
    PayToSpawnThreeVsThree,
    PayToSpawnFiveVsFive,
}

impl GameMode {
    /// The number of usable roster slots per team in this mode.
    pub open spec fn spec_players_per_team(self) -> usize {
        match self {
            GameMode::WinnerTakesAllOneVsOne => 1,
            GameMode::WinnerTakesAllThreeVsThree => 3,
            GameMode::WinnerTakesAllFiveVsFive => 5,
            GameMode::PayToSpawnOneVsOne => 1,
            GameMode::PayToSpawnThreeVsThree => 3,
            GameMode::PayToSpawnFiveVsFive => 5,
        }
    }

    /// True of the modes whose settlement is per-kill/spawn proportional.
    pub open spec fn spec_is_pay_to_spawn(self) -> bool {
        match self {
            GameMode::PayToSpawnOneVsOne => true,
            GameMode::PayToSpawnThreeVsThree => true,
            GameMode::PayToSpawnFiveVsFive => true,
            _ => false,
        }
    }

    /// Returns the required number of players per team.
    pub fn players_per_team(&self) -> (r: usize)
        ensures
            r == self.spec_players_per_team(),
            1 <= r <= 5,
    {
        match self {
            GameMode::WinnerTakesAllOneVsOne => 1,
            GameMode::WinnerTakesAllThreeVsThree => 3,
            GameMode::WinnerTakesAllFiveVsFive => 5,
            GameMode::PayToSpawnOneVsOne => 1,
            GameMode::PayToSpawnThreeVsThree => 3,
            GameMode::PayToSpawnFiveVsFive => 5,
        }
    }
}

/// Status of a game session.  It only ever advances forward:
/// `WaitingForPlayers`, then `InProgress`, then `Completed`.
#[derive(Clone, Copy, PartialEq, Eq, Structural, Debug)]
pub enum GameStatus {
    WaitingForPlayers,
    InProgress,
    Completed,
}

impl GameStatus {
    /// Position of a status in the one-way lifecycle; used to state that
    /// the status never regresses.
    pub open spec fn rank(self) -> int {
        match self {
            GameStatus::WaitingForPlayers => 0,
            GameStatus::InProgress => 1,
            GameStatus::Completed => 2,
        }
    }
}

impl Default for GameStatus {
    /// A fresh session waits for its players.
    fn default() -> (r: GameStatus)
        ensures
            r == GameStatus::WaitingForPlayers,
    {
        GameStatus::WaitingForPlayers
    }
}

/// The first index at or after `i` where `players` holds `p`.
pub open spec fn spec_find_player_from(players: Seq<PlayerId>, p: PlayerId, i: int) -> Option<int>
    decreases players.len() - i,
    when 0 <= i <= players.len()
{
    if i >= players.len() {
        None
    } else if players[i] == p {
        Some(i)
    } else {
        spec_find_player_from(players, p, i + 1)
    }
}

/// The first index where `players` holds `p`, if any.
pub open spec fn spec_find_player(players: Seq<PlayerId>, p: PlayerId) -> Option<int> {
    spec_find_player_from(players, p, 0)
}

/// What `spec_find_player_from` yields: the first match at or after `i`,
/// or a guarantee that none of the remaining entries match.
pub proof fn lemma_find_player_from(players: Seq<PlayerId>, p: PlayerId, i: int)
    requires
        0 <= i <= players.len(),
    ensures
        match spec_find_player_from(players, p, i) {
            Some(j) => i <= j < players.len() && players[j] == p && (forall|k: int|
                i <= k < j ==> players[k] != p),
            None => forall|k: int| i <= k < players.len() ==> players[k] != p,
        },
    decreases players.len() - i,
{
    if i < players.len() && players[i] != p {
        lemma_find_player_from(players, p, i + 1);
    }
}

/// Represents a team in the game: five fixed roster slots, of which only
/// the first `players_per_team` are usable, each with its own spawn and
/// kill counters.  A slot is empty exactly when its player key is the
/// sentinel.
#[derive(Clone, Copy)]
#[verifier::ext_equal]
pub struct Team {
    pub players: [PlayerId; 5],
    pub total_bet: u64,
    pub player_spawns: [u16; 5],
    pub player_kills: [u16; 5],
}

/// The first empty slot among the first `n`, if any.
pub open spec fn spec_first_empty_slot(t: Team, n: int, i: int) -> Option<int>
    decreases n - i,
    when 0 <= i
{
    if i >= n {
        None
    } else if !t.slot_occupied(i) {
        Some(i)
    } else {
        spec_first_empty_slot(t, n, i + 1)
    }
}

/// What `spec_first_empty_slot` yields: the first empty slot at or after
/// `i` among the first `n`, or a guarantee that those slots are all
/// occupied.
pub proof fn lemma_first_empty_slot(t: Team, n: int, i: int)
    requires
        0 <= i <= n,
    ensures
        match spec_first_empty_slot(t, n, i) {
            Some(j) => i <= j < n && !t.slot_occupied(j) && (forall|k: int|
                i <= k < j ==> t.slot_occupied(k)),
            None => forall|k: int| i <= k < n ==> t.slot_occupied(k),
        },
    decreases n - i,
{
    if i < n && t.slot_occupied(i) {
        lemma_first_empty_slot(t, n, i + 1);
    }
}

impl Team {
    /// A slot is occupied when its player key is not the sentinel.
    pub open spec fn slot_occupied(self, i: int) -> bool {
        !self.players[i].is_sentinel()
    }

    /// Every one of the first `n` slots is occupied.
    pub open spec fn full_up_to(self, n: int) -> bool {
        forall|i: int| 0 <= i < n ==> self.slot_occupied(i)
    }

    /// Some roster slot holds `p`.
    pub open spec fn roster_holds(self, p: PlayerId) -> bool {
        exists|i: int| 0 <= i < 5 && self.players[i] == p
    }

    /// Finds the first empty slot among the `player_count` usable ones,
    /// failing with `TeamIsFull` when every usable slot is occupied.
    pub fn get_empty_slot(&self, player_count: usize) -> (r: Result<usize, WagerError>)
        requires
            player_count <= 5,
        ensures
            match r {
                Ok(i) => spec_first_empty_slot(*self, player_count as int, 0) == Some(i as int),
                Err(e) => e == WagerError::TeamIsFull && spec_first_empty_slot(
                    *self,
                    player_count as int,
                    0,
                ) is None,
            },
    {
        let mut i: usize = 0;
        while i < player_count
            invariant
                0 <= i <= player_count <= 5,
                spec_first_empty_slot(*self, player_count as int, 0) == spec_first_empty_slot(
                    *self,
                    player_count as int,
                    i as int,
                ),
            decreases player_count - i,
        {
            if self.players[i].is_empty_key() {
                return Ok(i);
            }
            i += 1;
        }
        Err(WagerError::TeamIsFull)
    }
}

impl Default for Team {
    /// A fresh team: every slot empty, every counter zero.
    fn default() -> (r: Team)
        ensures
            forall|i: int| 0 <= i < 5 ==> !r.slot_occupied(i),
            forall|i: int| 0 <= i < 5 ==> r.player_spawns[i] == 0,
            forall|i: int| 0 <= i < 5 ==> r.player_kills[i] == 0,
            r.total_bet == 0,
    {
        Team {
            players: [PlayerId::sentinel(); 5],
            total_bet: 0,
            player_spawns: [0u16; 5],
            player_kills: [0u16; 5],
        }
    }
}

/// Represents a game session between two teams with its own pooled vault.
#[derive(Clone)]
#[verifier::ext_equal]
pub struct GameSession {
    /// Unique identifier for the game.
    pub session_id: String,
    /// The trusted controller: only it may score kills or settle.
    pub authority: PlayerId,
    /// Required bet amount per player.
    pub session_bet: u64,
    /// Game configuration (mode and team size).
    pub game_mode: GameMode,
    pub team_a: Team,
    pub team_b: Team,
    pub status: GameStatus,
    /// Creation timestamp, as the host ledger's clock gave it.
    pub created_at: i64,
    /// Addressing artifacts of the host ledger's derived accounts.
    pub bump: u8,
    pub vault_bump: u8,
    pub vault_token_bump: u8,
}

impl GameSession {
    /// Both rosters in fixed order: team A's five slots, then team B's,
    /// sentinel entries included.
    pub open spec fn all_players_seq(self) -> Seq<PlayerId> {
        self.team_a.players@ + self.team_b.players@
    }

    /// Every usable slot of both teams is occupied.
    pub open spec fn teams_full(self) -> bool {
        let n = self.game_mode.spec_players_per_team() as int;
        self.team_a.full_up_to(n) && self.team_b.full_up_to(n)
    }

    /// Some roster slot of either team holds `p`.
    pub open spec fn roster_holds(self, p: PlayerId) -> bool {
        self.team_a.roster_holds(p) || self.team_b.roster_holds(p)
    }

    /// The well-formedness every session established by `create` keeps:
    /// slots beyond the usable count stay empty, empty slots carry zeroed
    /// counters, and no identity occupies two slots across both teams.
    pub open spec fn wf(self) -> bool {
        let n = self.game_mode.spec_players_per_team() as int;
        let all = self.all_players_seq();
        &&& forall|i: int| n <= i < 5 ==> !self.team_a.slot_occupied(i)
        &&& forall|i: int| n <= i < 5 ==> !self.team_b.slot_occupied(i)
        &&& forall|i: int|
            0 <= i < 5 && !self.team_a.slot_occupied(i) ==> self.team_a.player_spawns[i] == 0
                && self.team_a.player_kills[i] == 0
        &&& forall|i: int|
            0 <= i < 5 && !self.team_b.slot_occupied(i) ==> self.team_b.player_spawns[i] == 0
                && self.team_b.player_kills[i] == 0
        &&& forall|i: int, j: int|
            0 <= i < j < 10 && !(#[trigger] all[i]).is_sentinel() ==> all[i] != #[trigger] all[j]
    }

    /// Whether `p` already occupies a roster slot of either team.
    pub fn roster_contains(&self, p: &PlayerId) -> (r: bool)
        ensures
            r == self.roster_holds(*p),
    {
        let in_a = scan_roster(&self.team_a.players, p);
        let in_b = scan_roster(&self.team_b.players, p);
        proof {
            lemma_find_player_from(self.team_a.players@, *p, 0);
            lemma_find_player_from(self.team_b.players@, *p, 0);
            if in_a is None {
                assert(!self.team_a.roster_holds(*p)) by {
                    if self.team_a.roster_holds(*p) {
                        let i = choose|i: int| 0 <= i < 5 && self.team_a.players[i] == *p;
                        assert(self.team_a.players@[i] == *p);
                    }
                }
            }
            if in_b is None {
                assert(!self.team_b.roster_holds(*p)) by {
                    if self.team_b.roster_holds(*p) {
                        let i = choose|i: int| 0 <= i < 5 && self.team_b.players[i] == *p;
                        assert(self.team_b.players@[i] == *p);
                    }
                }
            }
        }
        in_a.is_some() || in_b.is_some()
    }

    /// The kill count plus remaining spawns of the first slot holding `p`,
    /// searching team A's roster before team B's.
    pub open spec fn spec_kills_and_spawns(self, p: PlayerId) -> Option<int> {
        match spec_find_player(self.team_a.players@, p) {
            Some(i) => Some(self.team_a.player_kills[i] + self.team_a.player_spawns[i]),
            None => match spec_find_player(self.team_b.players@, p) {
                Some(i) => Some(self.team_b.player_kills[i] + self.team_b.player_spawns[i]),
                None => None,
            },
        }
    }

    /// Gets an empty slot for a player in the specified team.
    pub fn get_player_empty_slot(&self, team: u8) -> (r: Result<usize, WagerError>)
        ensures
            team == 0 ==> match r {
                Ok(i) => spec_first_empty_slot(
                    self.team_a,
                    self.game_mode.spec_players_per_team() as int,
                    0,
                ) == Some(i as int),
                Err(e) => e == WagerError::TeamIsFull && spec_first_empty_slot(
                    self.team_a,
                    self.game_mode.spec_players_per_team() as int,
                    0,
                ) is None,
            },
            team == 1 ==> match r {
                Ok(i) => spec_first_empty_slot(
                    self.team_b,
                    self.game_mode.spec_players_per_team() as int,
                    0,
                ) == Some(i as int),
                Err(e) => e == WagerError::TeamIsFull && spec_first_empty_slot(
                    self.team_b,
                    self.game_mode.spec_players_per_team() as int,
                    0,
                ) is None,
            },
            team >= 2 ==> r == Err::<usize, WagerError>(WagerError::InvalidTeam),
    {
        let player_count = self.game_mode.players_per_team();
        match team {
            0 => self.team_a.get_empty_slot(player_count),
            1 => self.team_b.get_empty_slot(player_count),
            _ => Err(WagerError::InvalidTeam),
        }
    }

    /// Checks whether both teams are completely filled.  The check itself
    /// cannot fail; the `Result` mirrors the operation interface.
    pub fn check_all_filled(&self) -> (r: Result<bool, WagerError>)
        ensures
            r == Ok::<bool, WagerError>(self.teams_full()),
    {
        let player_count = self.game_mode.players_per_team();
        let a = self.team_a.get_empty_slot(player_count);
        let b = self.team_b.get_empty_slot(player_count);
        proof {
            lemma_first_empty_slot(self.team_a, player_count as int, 0);
            lemma_first_empty_slot(self.team_b, player_count as int, 0);
        }
        Ok(a.is_err() && b.is_err())
    }

    /// True of the modes settled per kill/spawn rather than winner-takes-all.
    pub fn is_pay_to_spawn(&self) -> (r: bool)
        ensures
            r == self.game_mode.spec_is_pay_to_spawn(),
    {
        match self.game_mode {
            GameMode::PayToSpawnOneVsOne => true,
            GameMode::PayToSpawnThreeVsThree => true,
            GameMode::PayToSpawnFiveVsFive => true,
            _ => false,
        }
    }

    /// Both rosters in fixed order, sentinel entries included: settlement
    /// callers that want only real players must skip the sentinels.
    pub fn get_all_players(&self) -> (r: Vec<PlayerId>)
        ensures
            r@ == self.all_players_seq(),
    {
        let mut players: Vec<PlayerId> = Vec::new();
        let mut i: usize = 0;
        while i < 5
            invariant
                0 <= i <= 5,
                players@ =~= self.team_a.players@.subrange(0, i as int),
            decreases 5 - i,
        {
            players.push(self.team_a.players[i]);
            i += 1;
        }
        let mut j: usize = 0;
        while j < 5
            invariant
                0 <= j <= 5,
                players@ =~= self.team_a.players@ + self.team_b.players@.subrange(0, j as int),
            decreases 5 - j,
        {
            players.push(self.team_b.players[j]);
            j += 1;
        }
        proof {
            assert(players@ =~= self.all_players_seq());
        }
        players
    }

    /// The slot index of `player` in the selected team's roster.
    pub fn get_player_index(&self, team: u8, player: PlayerId) -> (r: Result<usize, WagerError>)
        ensures
            team == 0 ==> match r {
                Ok(i) => spec_find_player(self.team_a.players@, player) == Some(i as int),
                Err(e) => e == WagerError::PlayerNotFound && spec_find_player(
                    self.team_a.players@,
                    player,
                ) is None,
            },
            team == 1 ==> match r {
                Ok(i) => spec_find_player(self.team_b.players@, player) == Some(i as int),
                Err(e) => e == WagerError::PlayerNotFound && spec_find_player(
                    self.team_b.players@,
                    player,
                ) is None,
            },
            team >= 2 ==> r == Err::<usize, WagerError>(WagerError::InvalidTeam),
    {
        match team {
            0 => scan_roster(&self.team_a.players, &player).ok_or(WagerError::PlayerNotFound),
            1 => scan_roster(&self.team_b.players, &player).ok_or(WagerError::PlayerNotFound),
            _ => Err(WagerError::InvalidTeam),
        }
    }

    /// The sum of kills and remaining spawns for `player`, searching both
    /// teams; the basis of pay-to-spawn earnings.  Fails with
    /// `ArithmeticError` instead of wrapping when the sum exceeds the
    /// 16-bit counter range.
    pub fn get_kills_and_spawns(&self, player_pubkey: PlayerId) -> (r: Result<u16, WagerError>)
        ensures
            match self.spec_kills_and_spawns(player_pubkey) {
                Some(v) => if v <= u16::MAX {
                    r == Ok::<u16, WagerError>(v as u16)
                } else {
                    r == Err::<u16, WagerError>(WagerError::ArithmeticError)
                },
                None => r == Err::<u16, WagerError>(WagerError::PlayerNotFound),
            },
    {
        let team_a_index = scan_roster(&self.team_a.players, &player_pubkey);
        let team_b_index = scan_roster(&self.team_b.players, &player_pubkey);
        proof {
            lemma_find_player_from(self.team_a.players@, player_pubkey, 0);
            lemma_find_player_from(self.team_b.players@, player_pubkey, 0);
        }
        if let Some(i) = team_a_index {
            let sum: u32 = self.team_a.player_kills[i] as u32 + self.team_a.player_spawns[i] as u32;
            if sum > u16::MAX as u32 {
                Err(WagerError::ArithmeticError)
            } else {
                Ok(sum as u16)
            }
        } else if let Some(i) = team_b_index {
            let sum: u32 = self.team_b.player_kills[i] as u32 + self.team_b.player_spawns[i] as u32;
            if sum > u16::MAX as u32 {
                Err(WagerError::ArithmeticError)
            } else {
                Ok(sum as u16)
            }
        } else {
            Err(WagerError::PlayerNotFound)
        }
    }
}

/// `t` with the kill counter of slot `i` one higher.
pub open spec fn spec_bump_kills(t: Team, i: int) -> Team {
    Team {
        player_kills: vstd::array::spec_array_update(
            t.player_kills,
            i,
            (t.player_kills[i] + 1) as u16,
        ),
        ..t
    }
}

/// `t` with the spawn counter of slot `i` one lower.
pub open spec fn spec_drop_spawn(t: Team, i: int) -> Team {
    Team {
        player_spawns: vstd::array::spec_array_update(
            t.player_spawns,
            i,
            (t.player_spawns[i] - 1) as u16,
        ),
        ..t
    }
}

/// The session after a kill: the killer's team at slot `ki` gains a kill,
/// the victim's team at slot `vi` loses a spawn.
pub open spec fn spec_apply_kill(
    s: GameSession,
    killer_team: u8,
    ki: int,
    victim_team: u8,
    vi: int,
) -> GameSession {
    let s1 = if killer_team == 0 {
        GameSession { team_a: spec_bump_kills(s.team_a, ki), ..s }
    } else {
        GameSession { team_b: spec_bump_kills(s.team_b, ki), ..s }
    };
    if victim_team == 0 {
        GameSession { team_a: spec_drop_spawn(s1.team_a, vi), ..s1 }
    } else {
        GameSession { team_b: spec_drop_spawn(s1.team_b, vi), ..s1 }
    }
}

/// What `add_kill` does: resolve the killer's slot, then the victim's,
/// then apply the status guard, then move both counters — rejecting a
/// kill that would overflow the killer's counter or take the victim's
/// spawns below zero.
pub open spec fn spec_add_kill(
    s: GameSession,
    killer_team: u8,
    killer: PlayerId,
    victim_team: u8,
    victim: PlayerId,
) -> Result<GameSession, WagerError> {
    if killer_team >= 2 {
        Err(WagerError::InvalidTeam)
    } else {
        let kt = if killer_team == 0 {
            s.team_a
        } else {
            s.team_b
        };
        match spec_find_player(kt.players@, killer) {
            None => Err(WagerError::PlayerNotFound),
            Some(ki) => if victim_team >= 2 {
                Err(WagerError::InvalidTeam)
            } else {
                let vt = if victim_team == 0 {
                    s.team_a
                } else {
                    s.team_b
                };
                match spec_find_player(vt.players@, victim) {
                    None => Err(WagerError::PlayerNotFound),
                    Some(vi) => if s.status != GameStatus::InProgress {
                        Err(WagerError::GameNotInProgress)
                    } else if kt.player_kills[ki] == u16::MAX {
                        Err(WagerError::ArithmeticError)
                    } else if vt.player_spawns[vi] == 0 {
                        Err(WagerError::PlayerHasNoSpawns)
                    } else {
                        Ok(spec_apply_kill(s, killer_team, ki, victim_team, vi))
                    },
                }
            },
        }
    }
}

impl GameSession {
    /// Records one kill: the killer's kill counter rises by exactly one
    /// and the victim's spawn counter falls by exactly one; everything
    /// else is untouched.  Fails — leaving the session unchanged — on a
    /// bad team selector, an unknown player, a session not in progress,
    /// or a counter that cannot move: a kill against a victim with no
    /// spawns left is rejected rather than wrapping the counter.
    pub fn add_kill(
        &mut self,
        killer_team: u8,
        killer: PlayerId,
        victim_team: u8,
        victim: PlayerId,
    ) -> (r: Result<(), WagerError>)
        ensures
            match spec_add_kill(*old(self), killer_team, killer, victim_team, victim) {
                Ok(s2) => r == Ok::<(), WagerError>(()) && *final(self) == s2,
                Err(e) => r == Err::<(), WagerError>(e) && *final(self) == *old(self),
            },
            final(self).status == old(self).status,
            old(self).status != GameStatus::InProgress ==> r is Err,
            old(self).wf() && !killer.is_sentinel() && r is Ok ==> final(self).wf(),
    {
        let ghost s0 = *self;
        let killer_player_index = match self.get_player_index(killer_team, killer) {
            Ok(i) => i,
            Err(e) => { return Err(e) },
        };
        let victim_player_index = match self.get_player_index(victim_team, victim) {
            Ok(i) => i,
            Err(e) => { return Err(e) },
        };
        if self.status != GameStatus::InProgress {
            return Err(WagerError::GameNotInProgress);
        }
        proof {
            if killer_team == 0 {
                lemma_find_player_from(self.team_a.players@, killer, 0);
            } else {
                lemma_find_player_from(self.team_b.players@, killer, 0);
            }
            if victim_team == 0 {
                lemma_find_player_from(self.team_a.players@, victim, 0);
            } else {
                lemma_find_player_from(self.team_b.players@, victim, 0);
            }
        }
        let current_kills = if killer_team == 0 {
            self.team_a.player_kills[killer_player_index]
        } else {
            self.team_b.player_kills[killer_player_index]
        };
        if current_kills == u16::MAX {
            return Err(WagerError::ArithmeticError);
        }
        let current_spawns = if victim_team == 0 {
            self.team_a.player_spawns[victim_player_index]
        } else {
            self.team_b.player_spawns[victim_player_index]
        };
        if current_spawns == 0 {
            return Err(WagerError::PlayerHasNoSpawns);
        }
        if killer_team == 0 {
            self.team_a.player_kills[killer_player_index] = current_kills + 1;
        } else {
            self.team_b.player_kills[killer_player_index] = current_kills + 1;
        }
        if victim_team == 0 {
            self.team_a.player_spawns[victim_player_index] = current_spawns - 1;
        } else {
            self.team_b.player_spawns[victim_player_index] = current_spawns - 1;
        }
        proof {
            let s2 = spec_add_kill(s0, killer_team, killer, victim_team, victim)->Ok_0;
            assert(self.team_a =~= s2.team_a);
            assert(self.team_b =~= s2.team_b);
            assert(*self =~= s2);
            if s0.wf() && !killer.is_sentinel() {
                let ki = killer_player_index as int;
                let vi = victim_player_index as int;
                assert(self.all_players_seq() =~= s0.all_players_seq());
                if killer_team == 0 {
                    assert(s0.team_a.slot_occupied(ki));
                } else {
                    assert(s0.team_b.slot_occupied(ki));
                }
                if victim_team == 0 {
                    assert(s0.team_a.slot_occupied(vi)) by {
                        if !s0.team_a.slot_occupied(vi) {
                            assert(s0.team_a.player_spawns[vi] == 0);
                        }
                    }
                } else {
                    assert(s0.team_b.slot_occupied(vi)) by {
                        if !s0.team_b.slot_occupied(vi) {
                            assert(s0.team_b.player_spawns[vi] == 0);
                        }
                    }
                }
                assert forall|i: int|
                    0 <= i < 5 && !self.team_a.slot_occupied(i) implies self.team_a.player_spawns[i]
                    == 0 && self.team_a.player_kills[i] == 0 by {
                    assert(!s0.team_a.slot_occupied(i));
                }
                assert forall|i: int|
                    0 <= i < 5 && !self.team_b.slot_occupied(i) implies self.team_b.player_spawns[i]
                    == 0 && self.team_b.player_kills[i] == 0 by {
                    assert(!s0.team_b.slot_occupied(i));
                }
                let n = self.game_mode.spec_players_per_team() as int;
                assert(self.team_a.players == s0.team_a.players);
                assert(self.team_b.players == s0.team_b.players);
                assert forall|i: int| n <= i < 5 implies !self.team_a.slot_occupied(i) by {
                    assert(!s0.team_a.slot_occupied(i));
                    assert(self.team_a.players[i] == s0.team_a.players[i]);
                }
                assert forall|i: int| n <= i < 5 implies !self.team_b.slot_occupied(i) by {
                    assert(!s0.team_b.slot_occupied(i));
                    assert(self.team_b.players[i] == s0.team_b.players[i]);
                }
                assert(forall|i: int, j: int|
                    0 <= i < j < 10 && !(#[trigger] self.all_players_seq()[i]).is_sentinel()
                        ==> self.all_players_seq()[i] != #[trigger] self.all_players_seq()[j]);
                assert(self.wf());
            }
        }
        Ok(())
    }

    /// Replenishes a slot's spawns by the flat ten that one extra bet
    /// buys, rejecting the change rather than wrapping when the counter
    /// would overflow.
    pub fn add_spawns(&mut self, team: u8, player_index: usize) -> (r: Result<(), WagerError>)
        requires
            player_index < 5,
        ensures
            team >= 2 ==> r == Err::<(), WagerError>(WagerError::InvalidTeam) && *final(self)
                == *old(self),
            team <= 1 ==> ({
                let t = if team == 0 {
                    old(self).team_a
                } else {
                    old(self).team_b
                };
                if t.player_spawns[player_index as int] + 10 > u16::MAX {
                    r == Err::<(), WagerError>(WagerError::ArithmeticError) && *final(self) == *old(
                        self,
                    )
                } else {
                    r == Ok::<(), WagerError>(()) && final(self).status == old(self).status
                        && ({
                        let tnew = Team {
                            player_spawns: vstd::array::spec_array_update(
                                t.player_spawns,
                                player_index as int,
                                (t.player_spawns[player_index as int] + 10) as u16,
                            ),
                            ..t
                        };
                        if team == 0 {
                            *final(self) == GameSession { team_a: tnew, ..*old(self) }
                        } else {
                            *final(self) == GameSession { team_b: tnew, ..*old(self) }
                        }
                    })
                }
            }),
    {
        let ghost s0 = *self;
        if team >= 2 {
            return Err(WagerError::InvalidTeam);
        }
        let current = if team == 0 {
            self.team_a.player_spawns[player_index]
        } else {
            self.team_b.player_spawns[player_index]
        };
        if current > u16::MAX - 10 {
            return Err(WagerError::ArithmeticError);
        }
        if team == 0 {
            self.team_a.player_spawns[player_index] = current + 10;
        } else {
            self.team_b.player_spawns[player_index] = current + 10;
        }
        proof {
            if team == 0 {
                assert(self.team_a =~= Team {
                    player_spawns: vstd::array::spec_array_update(
                        s0.team_a.player_spawns,
                        player_index as int,
                        (s0.team_a.player_spawns[player_index as int] + 10) as u16,
                    ),
                    ..s0.team_a
                });
                assert(*self =~= GameSession { team_a: self.team_a, ..s0 });
            } else {
                assert(self.team_b =~= Team {
                    player_spawns: vstd::array::spec_array_update(
                        s0.team_b.player_spawns,
                        player_index as int,
                        (s0.team_b.player_spawns[player_index as int] + 10) as u16,
                    ),
                    ..s0.team_b
                });
                assert(*self =~= GameSession { team_b: self.team_b, ..s0 });
            }
        }
        Ok(())
    }
}

/// Well-formedness never depends on the status: moving a session through
/// its lifecycle alone cannot break it.
pub proof fn lemma_wf_any_status(s: GameSession, st: GameStatus)
    requires
        s.wf(),
    ensures
        (GameSession { status: st, ..s }).wf(),
{
    let s2 = GameSession { status: st, ..s };
    assert(s2.all_players_seq() =~= s.all_players_seq());
    assert forall|i: int, j: int|
        0 <= i < j < 10 && !(#[trigger] s2.all_players_seq()[i]).is_sentinel() implies s2.all_players_seq()[i]
        != #[trigger] s2.all_players_seq()[j] by {
        assert(s2.all_players_seq()[i] == s.all_players_seq()[i]);
        assert(s2.all_players_seq()[j] == s.all_players_seq()[j]);
    }
    assert(s2.wf());
}

/// The slot index of the first roster entry equal to `p`, if any.
fn scan_roster(players: &[PlayerId; 5], p: &PlayerId) -> (r: Option<usize>)
    ensures
        match r {
            Some(i) => spec_find_player(players@, *p) == Some(i as int),
            None => spec_find_player(players@, *p) is None,
        },
{
    let mut i: usize = 0;
    while i < 5
        invariant
            0 <= i <= 5,
            spec_find_player(players@, *p) == spec_find_player_from(players@, *p, i as int),
        decreases 5 - i,
    {
        if players[i].key_eq(p) {
            return Some(i);
        }
        i += 1;
    }
    None
}

} // verus!
