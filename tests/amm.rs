use solana_amm::contexts::{AddLiquidity, ClaimAdmin, Initialize, RemoveLiquidity, Swap, UpdateConfig};
use solana_amm::error::AmmError;
use solana_amm::instructions::{
    add_liquidity, claim_admin, initialize, remove_liquidity, swap, update_config,
};
use solana_amm::liquidity::{compute_deposit, compute_withdrawal, LiquidityMinted, MINIMUM_LIQUIDITY};
use solana_amm::math::{calculate_protocol_fee_mint, sqrt_product_u64, sqrt_u128, update_twap, Q64};
use solana_amm::pricing::quote_swap;
use solana_amm::state::{PoolState, Pubkey};

fn key(b: u8) -> Pubkey {
    Pubkey { bytes: [b; 32] }
}

fn init_ctx(now: u64) -> Initialize {
    Initialize {
        token_a_vault: key(10),
        token_b_vault: key(11),
        lp_mint: key(12),
        admin: key(7),
        pool_bump: 254,
        auth_bump: 253,
        now,
    }
}

fn fresh_pool(now: u64) -> PoolState {
    initialize(&init_ctx(now), key(1), key(2), 3, 1000).unwrap()
}

#[test]
fn sqrt_of_perfect_squares() {
    assert_eq!(sqrt_u128(0), Some(0));
    assert_eq!(sqrt_u128(1), Some(1));
    assert_eq!(sqrt_u128(100), Some(10));
    assert_eq!(sqrt_u128(144), Some(12));
    assert_eq!(sqrt_u128(1u128 << 64), Some(1u64 << 32));
}

#[test]
fn sqrt_of_non_squares() {
    assert_eq!(sqrt_u128(99), Some(9));
    assert_eq!(sqrt_u128(2), Some(1));
    assert_eq!(sqrt_u128(3), Some(1));
    assert_eq!(sqrt_u128(1_000_001), Some(1000));
}

#[test]
fn sqrt_floor_holds_over_a_range() {
    for n in 0u128..5000 {
        let r = sqrt_u128(n).unwrap() as u128;
        assert!(r * r <= n && n < (r + 1) * (r + 1));
    }
}

#[test]
fn sqrt_of_largest_input() {
    assert_eq!(sqrt_u128(u128::MAX), Some(u64::MAX));
    let below = (u64::MAX as u128) * (u64::MAX as u128) - 1;
    assert_eq!(sqrt_u128(below), Some(u64::MAX - 1));
}

#[test]
fn sqrt_product_widens() {
    assert_eq!(sqrt_product_u64(u64::MAX, u64::MAX), Some(u64::MAX));
    assert_eq!(sqrt_product_u64(1000, 1000), Some(1000));
    assert_eq!(sqrt_product_u64(2, 8), Some(4));
    assert_eq!(sqrt_product_u64(0, 12345), Some(0));
}

#[test]
fn initialize_sets_defaults() {
    let p = fresh_pool(500);
    assert_eq!(p.token_a, key(1));
    assert_eq!(p.token_b, key(2));
    assert_eq!(p.token_a_vault, key(10));
    assert_eq!(p.fee_numerator, 3);
    assert_eq!(p.fee_denominator, 1000);
    assert_eq!(p.block_timestamp_last, 500);
    assert_eq!(p.price_a_cumulative_last, 0);
    assert_eq!(p.admin, key(7));
    assert_eq!(p.protocol_fee_recipient, key(7));
    assert_eq!(p.pending_admin, None);
    assert_eq!(p.protocol_fee_share, 0);
    assert_eq!(p.k_last, 0);
}

#[test]
fn initialize_rejects_unordered_mints() {
    let ctx = init_ctx(0);
    assert_eq!(initialize(&ctx, key(2), key(1), 3, 1000), Err(AmmError::InvalidMint));
    assert_eq!(initialize(&ctx, key(2), key(2), 3, 1000), Err(AmmError::InvalidMint));
    let mut lo = [0u8; 32];
    let mut hi = [0u8; 32];
    lo[31] = 1;
    hi[0] = 1;
    assert!(initialize(&ctx, Pubkey { bytes: lo }, Pubkey { bytes: hi }, 3, 1000).is_ok());
    assert_eq!(
        initialize(&ctx, Pubkey { bytes: hi }, Pubkey { bytes: lo }, 3, 1000),
        Err(AmmError::InvalidMint)
    );
}

#[test]
fn initialize_rejects_bad_fees() {
    let ctx = init_ctx(0);
    assert_eq!(initialize(&ctx, key(1), key(2), 0, 0), Err(AmmError::InvalidFee));
    assert_eq!(initialize(&ctx, key(1), key(2), 1000, 1000), Err(AmmError::InvalidFee));
    assert!(initialize(&ctx, key(1), key(2), 0, 1).is_ok());
}

#[test]
fn pool_state_len() {
    assert_eq!(PoolState::LEN, 347);
    assert_eq!(PoolState::calculate_len(), PoolState::LEN);
}

#[test]
fn twap_accumulates_constant_reserves() {
    let mut p = fresh_pool(1000);
    update_twap(&mut p, 100, 200, 1010).unwrap();
    let expected_a = (200u128 << 64) / 100 * 10;
    let expected_b = (100u128 << 64) / 200 * 10;
    assert_eq!(p.price_a_cumulative_last, expected_a);
    assert_eq!(p.price_b_cumulative_last, expected_b);
    assert_eq!(p.block_timestamp_last, 1010);
    assert_eq!(Q64, 1u128 << 64);
}

#[test]
fn twap_zero_elapsed_only_moves_timestamp() {
    let mut p = fresh_pool(1000);
    update_twap(&mut p, 100, 200, 1010).unwrap();
    let before = p;
    update_twap(&mut p, 100, 200, 1010).unwrap();
    assert_eq!(p, before);
    update_twap(&mut p, 100, 200, 900).unwrap();
    assert_eq!(p.price_a_cumulative_last, before.price_a_cumulative_last);
    assert_eq!(p.price_b_cumulative_last, before.price_b_cumulative_last);
    assert_eq!(p.block_timestamp_last, 900);
}

#[test]
fn twap_skips_empty_reserves() {
    let mut p = fresh_pool(0);
    update_twap(&mut p, 0, 200, 50).unwrap();
    assert_eq!(p.price_a_cumulative_last, 0);
    assert_eq!(p.price_b_cumulative_last, 0);
    assert_eq!(p.block_timestamp_last, 50);
}

#[test]
fn twap_overflow_leaves_pool() {
    let mut p = fresh_pool(0);
    p.price_a_cumulative_last = u128::MAX - 5;
    let before = p;
    assert_eq!(update_twap(&mut p, 1, 1, 10), Err(AmmError::MathOverflow));
    assert_eq!(p, before);
}

#[test]
fn quote_matches_formula() {
    // 100 * 997 / 1000 = 99; 1000 * 99 / 1099 = 90
    assert_eq!(quote_swap(1000, 1000, 100, 3, 1000), Ok(90));
    // no fee: 1000 * 100 / 1100 = 90
    assert_eq!(quote_swap(1000, 1000, 100, 0, 1000), Ok(90));
    assert_eq!(quote_swap(1_000_000, 2_000_000, 10_000, 3, 1000), Ok(19_743));
}

#[test]
fn quote_errors() {
    assert_eq!(quote_swap(0, 1000, 0, 3, 1000), Err(AmmError::MathOverflow));
    assert_eq!(quote_swap(1000, 1000, 10, 3, 0), Err(AmmError::MathOverflow));
    assert_eq!(quote_swap(1000, 1000, u64::MAX, 3, 1000), Err(AmmError::MathOverflow));
}

#[test]
fn fee_never_raises_quote() {
    for amount in [1u64, 7, 100, 999, 12_345, 1_000_000] {
        let with_fee = quote_swap(50_000, 80_000, amount, 3, 1000).unwrap();
        let no_fee = quote_swap(50_000, 80_000, amount, 0, 1000).unwrap();
        assert!(with_fee <= no_fee);
    }
    assert!(quote_swap(50_000, 80_000, 10_000, 30, 1000).unwrap()
        < quote_swap(50_000, 80_000, 10_000, 0, 1000).unwrap());
}

#[test]
fn swap_keeps_invariant() {
    for (ri, ro, amount) in [(1000u64, 1000u64, 100u64), (5, 1_000_000, 3), (777, 333, 10_000)] {
        let out = quote_swap(ri, ro, amount, 3, 1000).unwrap();
        let before = ri as u128 * ro as u128;
        let after = (ri + amount) as u128 * (ro - out) as u128;
        assert!(after >= before);
    }
}

#[test]
fn swap_updates_oracle_and_pays_out() {
    let pool = fresh_pool(100);
    let mut ctx = Swap { pool_state: pool, token_a_vault_amount: 1000, token_b_vault_amount: 1000, now: 110 };
    assert_eq!(swap(&mut ctx, 100, true, 90), Ok(90));
    assert_eq!(ctx.pool_state.block_timestamp_last, 110);
    assert_eq!(ctx.pool_state.price_a_cumulative_last, (1u128 << 64) * 10);
}

#[test]
fn swap_b_to_a_uses_b_as_input() {
    let mut ctx = Swap { pool_state: fresh_pool(0), token_a_vault_amount: 2000, token_b_vault_amount: 1000, now: 0 };
    // eff = 99; out = 2000 * 99 / 1099 = 180
    assert_eq!(swap(&mut ctx, 100, false, 0), Ok(180));
}

#[test]
fn swap_slippage_leaves_pool() {
    let pool = fresh_pool(100);
    let mut ctx = Swap { pool_state: pool, token_a_vault_amount: 1000, token_b_vault_amount: 1000, now: 110 };
    assert_eq!(swap(&mut ctx, 100, true, 91), Err(AmmError::SlippageExceeded));
    assert_eq!(ctx.pool_state, pool);
}

#[test]
fn genesis_deposit_too_small() {
    let mut ctx = AddLiquidity {
        pool_state: fresh_pool(0),
        token_a_vault_amount: 0,
        token_b_vault_amount: 0,
        lp_supply: 0,
        now: 0,
    };
    assert_eq!(add_liquidity(&mut ctx, 1000, 1000), Err(AmmError::InitialLiquidityTooLow));
}

#[test]
fn genesis_deposit_locks_minimum() {
    let mut ctx = AddLiquidity {
        pool_state: fresh_pool(0),
        token_a_vault_amount: 0,
        token_b_vault_amount: 0,
        lp_supply: 0,
        now: 5,
    };
    assert_eq!(
        add_liquidity(&mut ctx, 10000, 10000),
        Ok(LiquidityMinted { to_user: 9000, to_burn_sink: 1000 })
    );
    assert_eq!(MINIMUM_LIQUIDITY, 1000);
    assert_eq!(ctx.pool_state.block_timestamp_last, 5);
}

#[test]
fn proportional_deposit_mints_pro_rata() {
    assert_eq!(
        compute_deposit(1000, 2000, 500, 100, 200),
        Ok(LiquidityMinted { to_user: 50, to_burn_sink: 0 })
    );
    assert_eq!(
        compute_deposit(3000, 9000, 1000, 30, 90),
        Ok(LiquidityMinted { to_user: 10, to_burn_sink: 0 })
    );
}

#[test]
fn unbalanced_deposit_takes_smaller_share() {
    assert_eq!(
        compute_deposit(1000, 1000, 1000, 100, 50),
        Ok(LiquidityMinted { to_user: 50, to_burn_sink: 0 })
    );
}

#[test]
fn deposit_into_empty_reserve_fails() {
    assert_eq!(compute_deposit(0, 1000, 1000, 100, 100), Err(AmmError::MathOverflow));
}

#[test]
fn deposit_then_withdraw_returns_no_more() {
    let (ra, rb, supply) = (1000u64, 3000u64, 1700u64);
    let (a, b) = (333u64, 1001u64);
    let m = compute_deposit(ra, rb, supply, a, b).unwrap();
    let w = compute_withdrawal(ra + a, rb + b, supply + m.to_user, 0, m.to_user, 0, 0).unwrap();
    assert!(w.amount_a <= a && w.amount_b <= b);
}

#[test]
fn genesis_round_trip_is_exact_for_whole_supply() {
    let m = compute_deposit(0, 0, 0, 40_000, 90_000).unwrap();
    let total = m.to_user + m.to_burn_sink;
    assert_eq!(total, 60_000);
    let all = compute_withdrawal(40_000, 90_000, total, 0, total, 0, 0).unwrap();
    assert_eq!((all.amount_a, all.amount_b), (40_000, 90_000));
    let user = compute_withdrawal(40_000, 90_000, total, 0, m.to_user, 0, 0).unwrap();
    assert!(user.amount_a <= 40_000 && user.amount_b <= 90_000);
}

#[test]
fn protocol_fee_disabled_or_no_growth() {
    assert_eq!(calculate_protocol_fee_mint(1000, 1000, 0, 1000, 300), Some(0));
    assert_eq!(calculate_protocol_fee_mint(1000, 1000, 500, 1000, 0), Some(0));
    assert_eq!(calculate_protocol_fee_mint(1000, 1000, 1_000_000, 1000, 300), Some(0));
}

#[test]
fn protocol_fee_on_growth() {
    // k grows from 1_000_000 to 1_210_000: roots 1000 -> 1100.
    // 1000 * 100 * 500 / (1100 * 9500) = 4
    assert_eq!(calculate_protocol_fee_mint(1100, 1100, 1_000_000, 1000, 500), Some(4));
    // 1_000_000 * 100 * 500 / (1100 * 9500) = 4784
    assert_eq!(calculate_protocol_fee_mint(1100, 1100, 1_000_000, 1_000_000, 500), Some(4784));
}

#[test]
fn protocol_fee_failure_is_none() {
    assert_eq!(calculate_protocol_fee_mint(1100, 1100, 1_000_000, 1000, 10_000), None);
    assert_eq!(calculate_protocol_fee_mint(1100, 1100, 1_000_000, 1000, 20_000), None);
    assert_eq!(calculate_protocol_fee_mint(u64::MAX, u64::MAX, 1, u64::MAX, 9000), None);
}

fn remove_ctx(user_lp: u64) -> RemoveLiquidity {
    RemoveLiquidity {
        pool_state: fresh_pool(0),
        token_a_vault_amount: 1000,
        token_b_vault_amount: 4000,
        lp_supply: 2000,
        user_lp_amount: user_lp,
        now: 0,
    }
}

#[test]
fn remove_liquidity_pays_pro_rata_and_records_k() {
    let mut ctx = remove_ctx(500);
    let w = remove_liquidity(&mut ctx, 500, 250, 1000).unwrap();
    assert_eq!((w.amount_a, w.amount_b, w.protocol_mint), (250, 1000, 0));
    assert_eq!(ctx.pool_state.k_last, 750 * 3000);
}

#[test]
fn remove_liquidity_needs_lp_balance() {
    let mut ctx = remove_ctx(499);
    let before = ctx.pool_state;
    assert_eq!(remove_liquidity(&mut ctx, 500, 0, 0), Err(AmmError::InvalidLpMint));
    assert_eq!(ctx.pool_state, before);
}

#[test]
fn remove_liquidity_slippage() {
    let mut ctx = remove_ctx(500);
    let before = ctx.pool_state;
    assert_eq!(remove_liquidity(&mut ctx, 500, 251, 0), Err(AmmError::SlippageExceeded));
    assert_eq!(remove_liquidity(&mut ctx, 500, 0, 1001), Err(AmmError::SlippageExceeded));
    assert_eq!(ctx.pool_state, before);
}

#[test]
fn remove_liquidity_mints_protocol_fee_first() {
    let mut ctx = RemoveLiquidity {
        pool_state: fresh_pool(0),
        token_a_vault_amount: 1100,
        token_b_vault_amount: 1100,
        lp_supply: 1_000_000,
        user_lp_amount: 100_000,
        now: 0,
    };
    ctx.pool_state.k_last = 1_000_000;
    ctx.pool_state.protocol_fee_share = 500;
    let w = remove_liquidity(&mut ctx, 100_000, 0, 0).unwrap();
    assert_eq!(w.protocol_mint, 4784);
    // 100_000 * 1100 / 1_004_784 = 109
    assert_eq!((w.amount_a, w.amount_b), (109, 109));
    assert_eq!(ctx.pool_state.k_last, 991 * 991);
}

#[test]
fn remove_liquidity_empty_supply_fails() {
    let mut ctx = remove_ctx(0);
    ctx.lp_supply = 0;
    assert_eq!(remove_liquidity(&mut ctx, 0, 0, 0), Err(AmmError::MathOverflow));
}

#[test]
fn admin_handover_two_steps() {
    let mut upd = UpdateConfig { pool_state: fresh_pool(0), admin: key(7) };
    assert_eq!(update_config(&mut upd, Some(key(9)), None, None), Ok(()));
    assert_eq!(upd.pool_state.admin, key(7));
    assert_eq!(upd.pool_state.pending_admin, Some(key(9)));

    let mut wrong = ClaimAdmin { pool_state: upd.pool_state, pending_admin: key(8) };
    assert_eq!(claim_admin(&mut wrong), Err(AmmError::Unauthorized));
    assert_eq!(wrong.pool_state.admin, key(7));

    let mut right = ClaimAdmin { pool_state: upd.pool_state, pending_admin: key(9) };
    assert_eq!(claim_admin(&mut right), Ok(()));
    assert_eq!(right.pool_state.admin, key(9));
    assert_eq!(right.pool_state.pending_admin, None);
}

#[test]
fn claim_without_pending_fails() {
    let mut c = ClaimAdmin { pool_state: fresh_pool(0), pending_admin: key(7) };
    assert_eq!(claim_admin(&mut c), Err(AmmError::Unauthorized));
}

#[test]
fn update_config_requires_admin() {
    let mut upd = UpdateConfig { pool_state: fresh_pool(0), admin: key(8) };
    assert_eq!(update_config(&mut upd, None, Some(key(3)), None), Err(AmmError::Unauthorized));
    assert_eq!(upd.pool_state.protocol_fee_recipient, key(7));
}

#[test]
fn fee_share_bound() {
    let mut upd = UpdateConfig { pool_state: fresh_pool(0), admin: key(7) };
    assert_eq!(
        update_config(&mut upd, Some(key(9)), Some(key(3)), Some(501)),
        Err(AmmError::InvalidFeeConfig)
    );
    assert_eq!(upd.pool_state.protocol_fee_share, 0);
    assert_eq!(upd.pool_state.pending_admin, None);
    assert_eq!(update_config(&mut upd, None, Some(key(3)), Some(500)), Ok(()));
    assert_eq!(upd.pool_state.protocol_fee_share, 500);
    assert_eq!(upd.pool_state.protocol_fee_recipient, key(3));
}

#[test]
fn deposit_updates_oracle_with_pre_trade_reserves() {
    let mut ctx = AddLiquidity {
        pool_state: fresh_pool(100),
        token_a_vault_amount: 1000,
        token_b_vault_amount: 4000,
        lp_supply: 2000,
        now: 104,
    };
    let minted = add_liquidity(&mut ctx, 100, 400).unwrap();
    assert_eq!(minted, LiquidityMinted { to_user: 200, to_burn_sink: 0 });
    assert_eq!(ctx.pool_state.price_a_cumulative_last, (4u128 << 64) * 4);
    assert_eq!(ctx.pool_state.price_b_cumulative_last, ((1u128 << 64) / 4) * 4);
    assert_eq!(ctx.pool_state.block_timestamp_last, 104);
}

#[test]
fn handlers_round_trip_returns_no_more() {
    let pool = fresh_pool(0);
    let mut dep = AddLiquidity {
        pool_state: pool,
        token_a_vault_amount: 7_000,
        token_b_vault_amount: 13_000,
        lp_supply: 9_000,
        now: 0,
    };
    let m = add_liquidity(&mut dep, 1_234, 2_345).unwrap();
    let mut rem = RemoveLiquidity {
        pool_state: dep.pool_state,
        token_a_vault_amount: 7_000 + 1_234,
        token_b_vault_amount: 13_000 + 2_345,
        lp_supply: 9_000 + m.to_user,
        user_lp_amount: m.to_user,
        now: 0,
    };
    let w = remove_liquidity(&mut rem, m.to_user, 0, 0).unwrap();
    assert_eq!(w.protocol_mint, 0);
    assert!(w.amount_a <= 1_234 && w.amount_b <= 2_345);
}

#[test]
fn unbalanced_deposit_mints_when_only_smaller_share_fits() {
    assert_eq!(
        compute_deposit(1, u64::MAX, u64::MAX, 2, 1),
        Ok(LiquidityMinted { to_user: 1, to_burn_sink: 0 })
    );
    assert_eq!(compute_deposit(1, 1, u64::MAX, 2, 2), Err(AmmError::MathOverflow));
}
