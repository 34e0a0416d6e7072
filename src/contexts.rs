use vstd::prelude::*;
use crate::state::{PoolState, Pubkey};

verus! {

/// What creating a pool reads: the accounts made for it and the clock.
#[derive(Debug, Clone, Copy)]
pub struct Initialize {
    pub token_a_vault: Pubkey,
    pub token_b_vault: Pubkey,
    pub lp_mint: Pubkey,
    /// The creator, who becomes admin and fee recipient.
    pub admin: Pubkey,
    pub pool_bump: u8,
    pub auth_bump: u8,
    /// Current time in seconds.
    pub now: u64,
}

/// A pool with the vault balances and time read for a swap.
#[derive(Debug, Clone, Copy)]
pub struct Swap {
    pub pool_state: PoolState,
    pub token_a_vault_amount: u64,
    pub token_b_vault_amount: u64,
    pub now: u64,
}

/// A pool with the balances, LP supply and time read for a deposit.
#[derive(Debug, Clone, Copy)]
pub struct AddLiquidity {
    pub pool_state: PoolState,
    pub token_a_vault_amount: u64,
    pub token_b_vault_amount: u64,
    pub lp_supply: u64,
    pub now: u64,
}

/// A pool with the balances, LP supply, the withdrawer's LP balance and time read
/// for a withdrawal.
#[derive(Debug, Clone, Copy)]
pub struct RemoveLiquidity {
    pub pool_state: PoolState,
    pub token_a_vault_amount: u64,
    pub token_b_vault_amount: u64,
    pub lp_supply: u64,
    pub user_lp_amount: u64,
    pub now: u64,
}

/// A pool and the identity that signed a configuration change.
#[derive(Debug, Clone, Copy)]
pub struct UpdateConfig {
    pub pool_state: PoolState,
    pub admin: Pubkey,
}

/// A pool and the identity that signed an admin claim.
#[derive(Debug, Clone, Copy)]
pub struct ClaimAdmin {
    pub pool_state: PoolState,
    pub pending_admin: Pubkey,
}

} // verus!
