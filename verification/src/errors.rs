//! The error taxonomy shared by every operation on a wagering session.

use vstd::prelude::*;

verus! {

/// Every way an operation on a session can fail.  Each failure aborts the
/// whole call with no partial effect; the variant tells the caller which
/// precondition was violated.
#[derive(Clone, Copy, PartialEq, Eq, Structural, Debug)]
pub enum WagerError {
    /// The session is not in the state the operation requires.
    InvalidGameState,
    /// The team selector is neither 0 nor 1.
    InvalidTeamSelection,
    /// Every usable slot of the chosen team is occupied.
    TeamIsFull,
    /// The caller's stake-bearing account cannot cover the bet
    /// (surfaced by the custody collaborator, never by this crate).
    InsufficientFunds,
    /// The number of players does not fit the game mode.
    InvalidPlayerCount,
    /// Not every usable slot has been filled yet.
    NotAllPlayersJoined,
    /// The session has not reached the completed state.
    GameNotCompleted,
    /// Only the session authority may distribute winnings.
    UnauthorizedDistribution,
    /// The winning-team selector is neither 0 nor 1.
    InvalidWinningTeam,
    /// Computing the total pot overflowed.
    TotalPotCalculationError,
    /// The declared winning team has no occupied slot.
    NoWinnersFound,
    /// Computing a per-player payout overflowed.
    WinningsCalculationError,
    /// The vault still holds funds after a distribution.
    IncompleteDistribution,
    /// The team selector does not name a team.
    InvalidTeam,
    /// A player's account is missing from the payout list.
    PlayerAccountNotFound,
    /// The payout account's owner is not a member of the winning team.
    InvalidWinner,
    /// A counter or amount computation overflowed or underflowed.
    ArithmeticError,
    /// The staking-token identity is not the expected one.
    InvalidMint,
    /// The caller-supplied account list is malformed.
    InvalidRemainingAccounts,
    /// A winner's payout account is not owned by that winner.
    InvalidWinnerTokenAccount,
    /// A payout account is denominated in the wrong token.
    InvalidTokenMint,
    /// A spawn counter does not permit the requested change.
    InvalidSpawns,
    /// Only the session authority may record a kill.
    UnauthorizedKill,
    /// Only a member of the team may pay for spawns.
    UnauthorizedPayToSpawn,
    /// The player occupies no slot in the named team.
    PlayerNotFound,
    /// A player's payout account is not owned by that player.
    InvalidPlayerTokenAccount,
    /// The identity does not belong to any player of the session.
    InvalidPlayer,
    /// The victim has no spawns left to lose.
    PlayerHasNoSpawns,
    /// The session is not in progress.
    GameNotInProgress,
}

impl WagerError {
    /// A short description of the failure, for callers that report errors.
    pub fn message(&self) -> &'static str {
        match self {
            WagerError::InvalidGameState => "Game session is not in the correct state",
            WagerError::InvalidTeamSelection => "Invalid team selection. Team must be 0 or 1",
            WagerError::TeamIsFull => "Team is already full",
            WagerError::InsufficientFunds => "Insufficient funds to join the game",
            WagerError::InvalidPlayerCount => "Invalid number of players for this game mode",
            WagerError::NotAllPlayersJoined => "All players not joined",
            WagerError::GameNotCompleted => "Game is not in completed state",
            WagerError::UnauthorizedDistribution => "Only the game authority can distribute winnings",
            WagerError::InvalidWinningTeam => "Invalid winning team selection",
            WagerError::TotalPotCalculationError => "Failed to calculate total pot due to arithmetic overflow",
            WagerError::NoWinnersFound => "No winners found in the winning team",
            WagerError::WinningsCalculationError => "Failed to calculate per-player winnings",
            WagerError::IncompleteDistribution => "Failed to distribute all funds from game session",
            WagerError::InvalidTeam => "Invalid team",
            WagerError::PlayerAccountNotFound => "Player account not found in winners",
            WagerError::InvalidWinner => "Invalid winning team selection",
            WagerError::ArithmeticError => "Arithmetic error",
            WagerError::InvalidMint => "Invalid mint address provided",
            WagerError::InvalidRemainingAccounts => "Invalid remaining accounts provided",
            WagerError::InvalidWinnerTokenAccount => "Invalid winner token account owner",
            WagerError::InvalidTokenMint => "Invalid token mint",
            WagerError::InvalidSpawns => "Invalid spawns",
            WagerError::UnauthorizedKill => "Unauthorized kill",
            WagerError::UnauthorizedPayToSpawn => "Unauthorized pay to spawn",
            WagerError::PlayerNotFound => "Player not found",
            WagerError::InvalidPlayerTokenAccount => "Invalid player token account",
            WagerError::InvalidPlayer => "Invalid player",
            WagerError::PlayerHasNoSpawns => "Player has no spawns",
            WagerError::GameNotInProgress => "Game is not in progress",
        }
    }
}

} // verus!
