//! The caller-supplied payout-account list that settlement walks, and the
//! transfers settlement computes.
//!
//! A settlement caller supplies accounts as tightly-paired entries: the
//! entry at an even index names a player, the entry right after it is
//! that player's payout token account.  The custody platform hands the
//! engine each entry's address and, where the entry parses as a token
//! account, its owner and token identity.

use vstd::prelude::*;

use crate::player::PlayerId;

verus! {

/// What a payout token account declares: who owns it and which token it
/// is denominated in.
#[derive(Clone, Copy, PartialEq, Eq, Debug)]
pub struct TokenAccountInfo {
    pub owner: PlayerId,
    pub mint: PlayerId,
}

/// One account of the caller-supplied list: its address, and its token
/// data when it parses as a token account.
#[derive(Clone, Copy, PartialEq, Eq, Debug)]
pub struct AccountEntry {
    pub key: PlayerId,
    pub token: Option<TokenAccountInfo>,
}

/// One transfer a settlement asks the custody platform to perform, out
/// of the session vault: `amount` goes to the token account at
/// `account_index` of the caller-supplied list, owed to `player`.
#[derive(Clone, Copy, PartialEq, Eq, Debug)]
pub struct Payout {
    pub player: PlayerId,
    pub account_index: usize,
    pub amount: u64,
}

/// The first pair at or after pair index `q` whose player entry is `p`.
pub open spec fn spec_find_pair_from(accounts: Seq<AccountEntry>, p: PlayerId, q: int) -> Option<
    int,
>
    decreases accounts.len() / 2 - q,
    when 0 <= q
{
    if q >= accounts.len() / 2 {
        None
    } else if accounts[2 * q].key == p {
        Some(q)
    } else {
        spec_find_pair_from(accounts, p, q + 1)
    }
}

/// The first pair whose player entry is `p`, if any.
pub open spec fn spec_find_pair(accounts: Seq<AccountEntry>, p: PlayerId) -> Option<int> {
    spec_find_pair_from(accounts, p, 0)
}

/// What `spec_find_pair_from` yields: the first matching pair at or
/// after `q`, or a guarantee that no later pair matches.
pub proof fn lemma_find_pair_from(accounts: Seq<AccountEntry>, p: PlayerId, q: int)
    requires
        0 <= q,
    ensures
        match spec_find_pair_from(accounts, p, q) {
            Some(j) => q <= j && 2 * j + 1 < accounts.len() && accounts[2 * j].key == p && (forall|
                k: int,
            |
                q <= k < j ==> (#[trigger] accounts[2 * k]).key != p),
            None => forall|k: int|
                q <= k < accounts.len() / 2 ==> (#[trigger] accounts[2 * k]).key != p,
        },
    decreases accounts.len() / 2 - q,
{
    if q < accounts.len() / 2 && accounts[2 * q].key != p {
        lemma_find_pair_from(accounts, p, q + 1);
    }
}

/// The pair index of the first player entry equal to `p`, scanning the
/// even positions of the list as settlement does.
pub fn find_account_pair(accounts: &Vec<AccountEntry>, p: &PlayerId) -> (r: Option<usize>)
    ensures
        match r {
            Some(q) => spec_find_pair(accounts@, *p) == Some(q as int),
            None => spec_find_pair(accounts@, *p) is None,
        },
{
    let mut q: usize = 0;
    while q < accounts.len() / 2
        invariant
            0 <= q <= accounts@.len() / 2,
            spec_find_pair(accounts@, *p) == spec_find_pair_from(accounts@, *p, q as int),
        decreases accounts@.len() / 2 - q,
    {
        if accounts[2 * q].key.key_eq(p) {
            return Some(q);
        }
        q += 1;
    }
    None
}

} // verus!
