//! Escrow-backed competitive wagering sessions.
//!
//! Players stake tokens into a pooled vault, compete in team-based matches,
//! and have the pool redistributed according to the match outcome
//! (winner-takes-all) or per-action earnings (pay-to-spawn).
//!
//! The crate models the session record, the roster logic, the session state
//! machine and both settlement algorithms as verified code over plain values.
//! The custody platform that allocates accounts, checks signatures and moves
//! token balances is an external collaborator: the settlement functions
//! return the exact list of transfers the caller must perform.

use vstd::prelude::*;

pub mod accounts;
pub mod create_game_session;
pub mod distribute_winnings;
pub mod errors;
pub mod join_user;
pub mod pay_to_spawn;
pub mod player;
pub mod record_kill;
pub mod refund_wager;
pub mod state;

verus! {

} // verus!
