use vstd::prelude::*;

verus! {

/// State of a bank: who created it, which mint it holds, how many tokens it
/// owes its depositors and how many shares stand against them.
#[derive(Debug, Clone, Copy)]
pub struct Bank {
    pub authority: [u8; 32],
    pub mint: [u8; 32],
    pub total_deposits: u64,
    pub total_deposit_shares: u64,
}

/// State of one depositor: its key, the shares it holds and whether the
/// account has been set up.
#[derive(Debug, Clone, Copy)]
pub struct User {
    pub user: [u8; 32],
    pub deposit_usdc_shares: u64,
    pub is_initialized: bool,
}

/// Shares that one depositor holds in the bank of one mint.
#[derive(Debug, Clone, Copy)]
pub struct UserShares {
    pub user: [u8; 32],
    pub mint: [u8; 32],
    pub deposit_shares: u64,
}

impl Bank {
    /// Every share is backed by at least one unit of the deposited asset;
    /// in particular a bank without deposits has no shares.
    pub open spec fn shares_backed(self) -> bool {
        self.total_deposit_shares <= self.total_deposits
    }
}

} // verus!
