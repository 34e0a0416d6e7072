use vstd::prelude::*;
use crate::contexts::{AddLiquidity, ClaimAdmin, Initialize, RemoveLiquidity, Swap, UpdateConfig};
use crate::error::AmmError;
use crate::liquidity::{
    compute_deposit,
    compute_withdrawal,
    deposit,
    withdraw,
    LiquidityMinted,
    Withdrawal,
};
use crate::math::{calculate_protocol_fee_mint, protocol_fee_mint, twap_update, update_twap};
use crate::pricing::{quote, quote_swap};
use crate::state::{key_lt, PoolState, Pubkey, MAX_PROTOCOL_FEE_SHARE};

verus! {

/// The pool a successful creation yields.
pub open spec fn new_pool(
    ctx: Initialize,
    mint_a: Pubkey,
    mint_b: Pubkey,
    fee_numerator: u64,
    fee_denominator: u64,
) -> PoolState {
    PoolState {
        token_a: mint_a,
        token_b: mint_b,
        token_a_vault: ctx.token_a_vault,
        token_b_vault: ctx.token_b_vault,
        lp_mint: ctx.lp_mint,
        fee_numerator,
        fee_denominator,
        pool_bump: ctx.pool_bump,
        auth_bump: ctx.auth_bump,
        block_timestamp_last: ctx.now,
        price_a_cumulative_last: 0,
        price_b_cumulative_last: 0,
        admin: ctx.admin,
        pending_admin: None,
        protocol_fee_recipient: ctx.admin,
        protocol_fee_share: 0,
        k_last: 0,
    }
}

/// Creates a pool for the ordered pair `(mint_a, mint_b)` with the given swap fee.
pub fn initialize(
    ctx: &Initialize,
    mint_a: Pubkey,
    mint_b: Pubkey,
    fee_numerator: u64,
    fee_denominator: u64,
) -> (r: Result<PoolState, AmmError>)
    ensures
        !key_lt(mint_a@, mint_b@) ==> r == Err::<PoolState, AmmError>(AmmError::InvalidMint),
        key_lt(mint_a@, mint_b@) && !(fee_denominator > 0 && fee_numerator < fee_denominator)
            ==> r == Err::<PoolState, AmmError>(AmmError::InvalidFee),
        key_lt(mint_a@, mint_b@) && fee_denominator > 0 && fee_numerator < fee_denominator ==> r
            == Ok::<PoolState, AmmError>(
            new_pool(*ctx, mint_a, mint_b, fee_numerator, fee_denominator),
        ),
        r matches Ok(p) ==> p.wf(),
{
    if !mint_a.less_than(&mint_b) {
        return Err(AmmError::InvalidMint);
    }
    if !(fee_denominator > 0 && fee_numerator < fee_denominator) {
        return Err(AmmError::InvalidFee);
    }
    Ok(
        PoolState {
            token_a: mint_a,
            token_b: mint_b,
            token_a_vault: ctx.token_a_vault,
            token_b_vault: ctx.token_b_vault,
            lp_mint: ctx.lp_mint,
            fee_numerator,
            fee_denominator,
            pool_bump: ctx.pool_bump,
            auth_bump: ctx.auth_bump,
            block_timestamp_last: ctx.now,
            price_a_cumulative_last: 0,
            price_b_cumulative_last: 0,
            admin: ctx.admin,
            pending_admin: None,
            protocol_fee_recipient: ctx.admin,
            protocol_fee_share: 0,
            k_last: 0,
        },
    )
}

/// The pool after a swap and the amount paid out, or the error that rejects it.
pub open spec fn swap_outcome(
    ctx: Swap,
    amount_in: u64,
    is_a_to_b: bool,
    min_amount_out: u64,
) -> Result<(PoolState, u64), AmmError> {
    let a = ctx.token_a_vault_amount;
    let b = ctx.token_b_vault_amount;
    match twap_update(ctx.pool_state, a, b, ctx.now) {
        Err(e) => Err(e),
        Ok(p) => {
            let q = if is_a_to_b {
                quote(a, b, amount_in, p.fee_numerator, p.fee_denominator)
            } else {
                quote(b, a, amount_in, p.fee_numerator, p.fee_denominator)
            };
            match q {
                Err(e) => Err(e),
                Ok(out) => if out < min_amount_out {
                    Err(AmmError::SlippageExceeded)
                } else {
                    Ok((p, out))
                },
            }
        },
    }
}

/// Swaps `amount_in` of A for B (`is_a_to_b`) or of B for A, returning the amount
/// the pool pays out. The oracle observes the reserves before the trade. On error
/// the pool is left as it was.
pub fn swap(ctx: &mut Swap, amount_in: u64, is_a_to_b: bool, min_amount_out: u64) -> (r: Result<
    u64,
    AmmError,
>)
    ensures
        final(ctx).token_a_vault_amount == old(ctx).token_a_vault_amount,
        final(ctx).token_b_vault_amount == old(ctx).token_b_vault_amount,
        final(ctx).now == old(ctx).now,
        match swap_outcome(*old(ctx), amount_in, is_a_to_b, min_amount_out) {
            Ok((p, out)) => r == Ok::<u64, AmmError>(out) && final(ctx).pool_state == p,
            Err(e) => r == Err::<u64, AmmError>(e) && final(ctx).pool_state == old(
                ctx,
            ).pool_state,
        },
        old(ctx).pool_state.wf() ==> final(ctx).pool_state.wf(),
{
    let reserve_a = ctx.token_a_vault_amount;
    let reserve_b = ctx.token_b_vault_amount;
    let (reserve_in, reserve_out) = if is_a_to_b {
        (reserve_a, reserve_b)
    } else {
        (reserve_b, reserve_a)
    };
    let mut pool = ctx.pool_state;
    update_twap(&mut pool, reserve_a, reserve_b, ctx.now)?;
    let amount_out = quote_swap(
        reserve_in,
        reserve_out,
        amount_in,
        pool.fee_numerator,
        pool.fee_denominator,
    )?;
    if amount_out < min_amount_out {
        return Err(AmmError::SlippageExceeded);
    }
    ctx.pool_state = pool;
    Ok(amount_out)
}

/// The pool after a deposit and the LP tokens it mints, or the error that rejects it.
pub open spec fn add_liquidity_outcome(ctx: AddLiquidity, amount_a: u64, amount_b: u64) -> Result<
    (PoolState, LiquidityMinted),
    AmmError,
> {
    let a = ctx.token_a_vault_amount;
    let b = ctx.token_b_vault_amount;
    match twap_update(ctx.pool_state, a, b, ctx.now) {
        Err(e) => Err(e),
        Ok(p) => match deposit(a, b, ctx.lp_supply, amount_a, amount_b) {
            Err(e) => Err(e),
            Ok(m) => Ok((p, m)),
        },
    }
}

/// Deposits `(amount_a, amount_b)` and returns the LP tokens to mint. On error the
/// pool is left as it was.
pub fn add_liquidity(ctx: &mut AddLiquidity, amount_a: u64, amount_b: u64) -> (r: Result<
    LiquidityMinted,
    AmmError,
>)
    ensures
        final(ctx).token_a_vault_amount == old(ctx).token_a_vault_amount,
        final(ctx).token_b_vault_amount == old(ctx).token_b_vault_amount,
        final(ctx).lp_supply == old(ctx).lp_supply,
        final(ctx).now == old(ctx).now,
        match add_liquidity_outcome(*old(ctx), amount_a, amount_b) {
            Ok((p, m)) => r == Ok::<LiquidityMinted, AmmError>(m) && final(ctx).pool_state == p,
            Err(e) => r == Err::<LiquidityMinted, AmmError>(e) && final(ctx).pool_state == old(
                ctx,
            ).pool_state,
        },
        old(ctx).pool_state.wf() ==> final(ctx).pool_state.wf(),
{
    let mut pool = ctx.pool_state;
    update_twap(&mut pool, ctx.token_a_vault_amount, ctx.token_b_vault_amount, ctx.now)?;
    let minted = compute_deposit(
        ctx.token_a_vault_amount,
        ctx.token_b_vault_amount,
        ctx.lp_supply,
        amount_a,
        amount_b,
    )?;
    ctx.pool_state = pool;
    Ok(minted)
}

/// The protocol's LP mint on a withdrawal; a failed accrual counts as nothing owed.
pub open spec fn accrued_protocol_mint(
    reserve_a: u64,
    reserve_b: u64,
    k_last: u128,
    lp_supply: u64,
    protocol_fee_share: u64,
) -> u64 {
    match protocol_fee_mint(reserve_a, reserve_b, k_last, lp_supply, protocol_fee_share) {
        Some(v) => v,
        None => 0,
    }
}

/// The pool after a withdrawal and what it pays out, or the error that rejects it.
pub open spec fn remove_liquidity_outcome(
    ctx: RemoveLiquidity,
    amount_lp: u64,
    min_amount_a: u64,
    min_amount_b: u64,
) -> Result<(PoolState, Withdrawal), AmmError> {
    let a = ctx.token_a_vault_amount;
    let b = ctx.token_b_vault_amount;
    if ctx.user_lp_amount < amount_lp {
        Err(AmmError::InvalidLpMint)
    } else {
        match twap_update(ctx.pool_state, a, b, ctx.now) {
            Err(e) => Err(e),
            Ok(p) => {
                let pm = accrued_protocol_mint(
                    a,
                    b,
                    p.k_last,
                    ctx.lp_supply,
                    p.protocol_fee_share,
                );
                match withdraw(a, b, ctx.lp_supply, pm, amount_lp, min_amount_a, min_amount_b) {
                    Err(e) => Err(e),
                    Ok(w) => Ok(
                        (
                            PoolState {
                                k_last: ((a - w.amount_a) * (b - w.amount_b)) as u128,
                                ..p
                            },
                            w,
                        ),
                    ),
                }
            },
        }
    }
}

/// Burns `amount_lp` of the caller's LP tokens for a pro-rata share of both
/// reserves, after minting the protocol's accrued fee; records the invariant of
/// the reserves that remain. On error the pool is left as it was.
pub fn remove_liquidity(
    ctx: &mut RemoveLiquidity,
    amount_lp: u64,
    min_amount_a: u64,
    min_amount_b: u64,
) -> (r: Result<Withdrawal, AmmError>)
    ensures
        final(ctx).token_a_vault_amount == old(ctx).token_a_vault_amount,
        final(ctx).token_b_vault_amount == old(ctx).token_b_vault_amount,
        final(ctx).lp_supply == old(ctx).lp_supply,
        final(ctx).user_lp_amount == old(ctx).user_lp_amount,
        final(ctx).now == old(ctx).now,
        match remove_liquidity_outcome(*old(ctx), amount_lp, min_amount_a, min_amount_b) {
            Ok((p, w)) => r == Ok::<Withdrawal, AmmError>(w) && final(ctx).pool_state == p,
            Err(e) => r == Err::<Withdrawal, AmmError>(e) && final(ctx).pool_state == old(
                ctx,
            ).pool_state,
        },
        old(ctx).pool_state.wf() ==> final(ctx).pool_state.wf(),
{
    if ctx.user_lp_amount < amount_lp {
        return Err(AmmError::InvalidLpMint);
    }
    let reserve_a = ctx.token_a_vault_amount;
    let reserve_b = ctx.token_b_vault_amount;
    let mut pool = ctx.pool_state;
    update_twap(&mut pool, reserve_a, reserve_b, ctx.now)?;
    let protocol_mint_amount = match calculate_protocol_fee_mint(
        reserve_a,
        reserve_b,
        pool.k_last,
        ctx.lp_supply,
        pool.protocol_fee_share,
    ) {
        Some(v) => v,
        None => 0,
    };
    let w = compute_withdrawal(
        reserve_a,
        reserve_b,
        ctx.lp_supply,
        protocol_mint_amount,
        amount_lp,
        min_amount_a,
        min_amount_b,
    )?;
    let new_reserve_a = reserve_a - w.amount_a;
    let new_reserve_b = reserve_b - w.amount_b;
    proof {
        assert(new_reserve_a * new_reserve_b <= u64::MAX * u64::MAX) by (nonlinear_arith)
            requires
                new_reserve_a <= u64::MAX,
                new_reserve_b <= u64::MAX,
        ;
    }
    pool.k_last = (new_reserve_a as u128) * (new_reserve_b as u128);
    ctx.pool_state = pool;
    Ok(w)
}

/// The pool after a configuration change signed by `signer`, or the error that rejects it.
pub open spec fn config_update(
    p: PoolState,
    signer: Pubkey,
    new_admin: Option<Pubkey>,
    new_recipient: Option<Pubkey>,
    new_share: Option<u64>,
) -> Result<PoolState, AmmError> {
    if signer@ != p.admin@ {
        Err(AmmError::Unauthorized)
    } else if new_share matches Some(s) && s > MAX_PROTOCOL_FEE_SHARE {
        Err(AmmError::InvalidFeeConfig)
    } else {
        Ok(
            PoolState {
                pending_admin: match new_admin {
                    Some(x) => Some(x),
                    None => p.pending_admin,
                },
                protocol_fee_recipient: match new_recipient {
                    Some(x) => x,
                    None => p.protocol_fee_recipient,
                },
                protocol_fee_share: match new_share {
                    Some(s) => s,
                    None => p.protocol_fee_share,
                },
                ..p
            },
        )
    }
}

/// Admin-only: proposes a new admin (who must claim the role), and replaces the fee
/// recipient and the protocol fee share (at most 500 basis points) where given.
pub fn update_config(
    ctx: &mut UpdateConfig,
    new_admin: Option<Pubkey>,
    new_recipient: Option<Pubkey>,
    new_share: Option<u64>,
) -> (r: Result<(), AmmError>)
    ensures
        final(ctx).admin == old(ctx).admin,
        match config_update(old(ctx).pool_state, old(ctx).admin, new_admin, new_recipient, new_share) {
            Ok(p) => r is Ok && final(ctx).pool_state == p,
            Err(e) => r == Err::<(), AmmError>(e) && final(ctx).pool_state == old(ctx).pool_state,
        },
        old(ctx).pool_state.wf() ==> final(ctx).pool_state.wf(),
{
    if ctx.admin != ctx.pool_state.admin {
        return Err(AmmError::Unauthorized);
    }
    if let Some(share) = new_share {
        if share > MAX_PROTOCOL_FEE_SHARE {
            return Err(AmmError::InvalidFeeConfig);
        }
    }
    if let Some(admin) = new_admin {
        ctx.pool_state.pending_admin = Some(admin);
    }
    if let Some(recipient) = new_recipient {
        ctx.pool_state.protocol_fee_recipient = recipient;
    }
    if let Some(share) = new_share {
        ctx.pool_state.protocol_fee_share = share;
    }
    Ok(())
}

/// The pool after `caller` claims the admin role, or the error that rejects it.
pub open spec fn admin_claim(p: PoolState, caller: Pubkey) -> Result<PoolState, AmmError> {
    if p.pending_admin matches Some(k) && k@ == caller@ {
        Ok(PoolState { admin: caller, pending_admin: None, ..p })
    } else {
        Err(AmmError::Unauthorized)
    }
}

/// Completes an admin handover: only the pending admin may take the role.
pub fn claim_admin(ctx: &mut ClaimAdmin) -> (r: Result<(), AmmError>)
    ensures
        final(ctx).pending_admin == old(ctx).pending_admin,
        match admin_claim(old(ctx).pool_state, old(ctx).pending_admin) {
            Ok(p) => r is Ok && final(ctx).pool_state == p,
            Err(e) => r == Err::<(), AmmError>(e) && final(ctx).pool_state == old(ctx).pool_state,
        },
        old(ctx).pool_state.wf() ==> final(ctx).pool_state.wf(),
{
    let entitled = match ctx.pool_state.pending_admin {
        Some(k) => k == ctx.pending_admin,
        None => false,
    };
    if !entitled {
        return Err(AmmError::Unauthorized);
    }
    ctx.pool_state.admin = ctx.pending_admin;
    ctx.pool_state.pending_admin = None;
    Ok(())
}

/// Handing over the admin role takes two steps: proposing `new_admin` leaves the
/// admin as it was and records the proposal; anyone but `new_admin` is then
/// refused the role, and `new_admin` takes it, which clears the proposal.
pub proof fn lemma_admin_handover(p: PoolState, new_admin: Pubkey, other: Pubkey)
    requires
        other@ != new_admin@,
    ensures
        ({
            let q = config_update(p, p.admin, Some(new_admin), None, None);
            &&& q is Ok
            &&& q->Ok_0.admin == p.admin
            &&& q->Ok_0.pending_admin == Some(new_admin)
            &&& admin_claim(q->Ok_0, other) == Err::<PoolState, AmmError>(AmmError::Unauthorized)
            &&& admin_claim(q->Ok_0, new_admin) matches Ok(s) && s.admin == new_admin
                && s.pending_admin is None
        }),
{
}

/// The protocol fee share is accepted up to 500 basis points and refused above.
pub proof fn lemma_fee_share_bound(p: PoolState, share: u64)
    ensures
        share <= MAX_PROTOCOL_FEE_SHARE ==> config_update(p, p.admin, None, None, Some(share)) is Ok,
        share > MAX_PROTOCOL_FEE_SHARE ==> config_update(p, p.admin, None, None, Some(share))
            == Err::<PoolState, AmmError>(AmmError::InvalidFeeConfig),
{
}

} // verus!
