use vstd::prelude::*;
use crate::error::AmmError;
use crate::math::{floor_sqrt, lemma_floor_div_ordered, sqrt_product_u64};

verus! {

/// LP units locked for good at genesis.
pub const MINIMUM_LIQUIDITY: u64 = 1000;

/// LP tokens created by a deposit.
#[derive(Debug, Clone, Copy, PartialEq, Eq, Structural)]
pub struct LiquidityMinted {
    /// Minted to the depositor.
    pub to_user: u64,
    /// Minted to the unrecoverable sink (only at genesis).
    pub to_burn_sink: u64,
}

/// What a withdrawal pays out and mints.
#[derive(Debug, Clone, Copy, PartialEq, Eq, Structural)]
pub struct Withdrawal {
    pub amount_a: u64,
    pub amount_b: u64,
    /// LP tokens minted to the protocol fee recipient before the payout.
    pub protocol_mint: u64,
}

/// LP tokens for depositing `(amount_a, amount_b)` into reserves `(reserve_a, reserve_b)`
/// backed by `lp_supply` outstanding LP tokens.
pub open spec fn deposit(
    reserve_a: u64,
    reserve_b: u64,
    lp_supply: u64,
    amount_a: u64,
    amount_b: u64,
) -> Result<LiquidityMinted, AmmError> {
    if lp_supply == 0 {
        let initial = floor_sqrt((amount_a * amount_b) as nat);
        if initial <= MINIMUM_LIQUIDITY {
            Err(AmmError::InitialLiquidityTooLow)
        } else {
            Ok(
                LiquidityMinted {
                    to_user: (initial - MINIMUM_LIQUIDITY) as u64,
                    to_burn_sink: MINIMUM_LIQUIDITY,
                },
            )
        }
    } else if reserve_a == 0 || reserve_b == 0 {
        Err(AmmError::MathOverflow)
    } else {
        let lp_a = (amount_a * lp_supply) / reserve_a as int;
        let lp_b = (amount_b * lp_supply) / reserve_b as int;
        let minted = if lp_a <= lp_b {
            lp_a
        } else {
            lp_b
        };
        if minted > u64::MAX {
            Err(AmmError::MathOverflow)
        } else {
            Ok(LiquidityMinted { to_user: minted as u64, to_burn_sink: 0 })
        }
    }
}

/// Payout for burning `amount_lp` of `lp_supply + protocol_mint` LP tokens against
/// reserves `(reserve_a, reserve_b)`, with the caller's minimums.
pub open spec fn withdraw(
    reserve_a: u64,
    reserve_b: u64,
    lp_supply: u64,
    protocol_mint: u64,
    amount_lp: u64,
    min_amount_a: u64,
    min_amount_b: u64,
) -> Result<Withdrawal, AmmError> {
    let total = lp_supply + protocol_mint;
    if total > u64::MAX || total == 0 {
        Err(AmmError::MathOverflow)
    } else {
        let a = (amount_lp * reserve_a) / total;
        let b = (amount_lp * reserve_b) / total;
        if a > u64::MAX || b > u64::MAX {
            Err(AmmError::MathOverflow)
        } else if a < min_amount_a || b < min_amount_b {
            Err(AmmError::SlippageExceeded)
        } else if a > reserve_a || b > reserve_b {
            Err(AmmError::MathOverflow)
        } else {
            Ok(Withdrawal { amount_a: a as u64, amount_b: b as u64, protocol_mint })
        }
    }
}

/// `floor(x * y / d)` at 128 bits, if it fits in 64.
fn mul_div_u64(x: u64, y: u64, d: u64) -> (r: Option<u64>)
    requires
        d > 0,
    ensures
        r == (if (x * y) / d as int <= u64::MAX {
            Some(((x * y) / d as int) as u64)
        } else {
            None::<u64>
        }),
{
    proof {
        assert(x * y <= u64::MAX * u64::MAX) by (nonlinear_arith)
            requires
                x <= u64::MAX,
                y <= u64::MAX,
        ;
    }
    let q = (x as u128) * (y as u128) / (d as u128);
    if q > u64::MAX as u128 {
        None
    } else {
        Some(q as u64)
    }
}

/// LP tokens for a deposit: `sqrt(amount_a * amount_b)` less the locked minimum at
/// genesis, else the smaller of the two pro-rata shares.
pub fn compute_deposit(
    reserve_a: u64,
    reserve_b: u64,
    lp_supply: u64,
    amount_a: u64,
    amount_b: u64,
) -> (r: Result<LiquidityMinted, AmmError>)
    ensures
        r == deposit(reserve_a, reserve_b, lp_supply, amount_a, amount_b),
{
    if lp_supply == 0 {
        let initial_liquidity = match sqrt_product_u64(amount_a, amount_b) {
            Some(v) => v,
            None => {
                return Err(AmmError::MathOverflow);
            },
        };
        if initial_liquidity <= MINIMUM_LIQUIDITY {
            return Err(AmmError::InitialLiquidityTooLow);
        }
        return Ok(
            LiquidityMinted {
                to_user: initial_liquidity - MINIMUM_LIQUIDITY,
                to_burn_sink: MINIMUM_LIQUIDITY,
            },
        );
    }
    if reserve_a == 0 || reserve_b == 0 {
        return Err(AmmError::MathOverflow);
    }
    proof {
        assert(amount_a * lp_supply <= u64::MAX * u64::MAX) by (nonlinear_arith)
            requires
                amount_a <= u64::MAX,
                lp_supply <= u64::MAX,
        ;
        assert(amount_b * lp_supply <= u64::MAX * u64::MAX) by (nonlinear_arith)
            requires
                amount_b <= u64::MAX,
                lp_supply <= u64::MAX,
        ;
    }
    let liquidity_a = (amount_a as u128) * (lp_supply as u128) / (reserve_a as u128);
    let liquidity_b = (amount_b as u128) * (lp_supply as u128) / (reserve_b as u128);
    let liquidity = if liquidity_a <= liquidity_b {
        liquidity_a
    } else {
        liquidity_b
    };
    if liquidity > u64::MAX as u128 {
        return Err(AmmError::MathOverflow);
    }
    Ok(LiquidityMinted { to_user: liquidity as u64, to_burn_sink: 0 })
}

/// Pro-rata payout of a withdrawal, after `protocol_mint` has joined the supply.
pub fn compute_withdrawal(
    reserve_a: u64,
    reserve_b: u64,
    lp_supply: u64,
    protocol_mint: u64,
    amount_lp: u64,
    min_amount_a: u64,
    min_amount_b: u64,
) -> (r: Result<Withdrawal, AmmError>)
    ensures
        r == withdraw(
            reserve_a,
            reserve_b,
            lp_supply,
            protocol_mint,
            amount_lp,
            min_amount_a,
            min_amount_b,
        ),
{
    let total_lp_supply = match lp_supply.checked_add(protocol_mint) {
        Some(v) => v,
        None => {
            return Err(AmmError::MathOverflow);
        },
    };
    if total_lp_supply == 0 {
        return Err(AmmError::MathOverflow);
    }
    let user_get_amount_a = mul_div_u64(amount_lp, reserve_a, total_lp_supply);
    let user_get_amount_b = mul_div_u64(amount_lp, reserve_b, total_lp_supply);
    let (amount_a, amount_b) = match (user_get_amount_a, user_get_amount_b) {
        (Some(a), Some(b)) => (a, b),
        _ => {
            return Err(AmmError::MathOverflow);
        },
    };
    if amount_a < min_amount_a || amount_b < min_amount_b {
        return Err(AmmError::SlippageExceeded);
    }
    if amount_a > reserve_a || amount_b > reserve_b {
        return Err(AmmError::MathOverflow);
    }
    Ok(Withdrawal { amount_a, amount_b, protocol_mint })
}

/// A deposit in the pool's own ratio mints exactly `amount_a * lp_supply / reserve_a`
/// (the two pro-rata shares agree), with nothing lost to rounding when that
/// division is exact.
pub proof fn lemma_proportional_deposit(
    reserve_a: u64,
    reserve_b: u64,
    lp_supply: u64,
    amount_a: u64,
    amount_b: u64,
)
    requires
        lp_supply > 0,
        reserve_a > 0,
        reserve_b > 0,
        amount_a * reserve_b == amount_b * reserve_a,
        deposit(reserve_a, reserve_b, lp_supply, amount_a, amount_b) is Ok,
    ensures
        ({
            let minted = deposit(reserve_a, reserve_b, lp_supply, amount_a, amount_b)->Ok_0;
            &&& minted.to_user == (amount_a * lp_supply) / reserve_a as int
            &&& minted.to_user == (amount_b * lp_supply) / reserve_b as int
            &&& minted.to_burn_sink == 0
            &&& (amount_a * lp_supply) % reserve_a as int == 0 ==> minted.to_user * reserve_a
                == amount_a * lp_supply
        }),
{
    let x = amount_a * lp_supply;
    let z = amount_b * lp_supply;
    let ra = reserve_a as int;
    let rb = reserve_b as int;
    assert(x * rb == z * ra) by (nonlinear_arith)
        requires
            x == amount_a * lp_supply,
            z == amount_b * lp_supply,
            amount_a * rb == amount_b * ra,
    ;
    assert(x >= 0 && z >= 0) by (nonlinear_arith)
        requires
            x == amount_a * lp_supply,
            z == amount_b * lp_supply,
            amount_a >= 0,
            amount_b >= 0,
            lp_supply >= 0,
    ;
    lemma_floor_div_ordered(x, ra, z, rb);
    lemma_floor_div_ordered(z, rb, x, ra);
    if x % ra == 0 {
        assert((x / ra) * ra == x) by (nonlinear_arith)
            requires
                ra > 0,
                x % ra == 0,
        ;
    }
}

/// Depositing `(amount_a, amount_b)` and at once withdrawing every LP token that
/// deposit gave the depositor, with no protocol fee accrued, pays back at most
/// what was deposited. At genesis into an empty pool, withdrawing the whole
/// supply (the locked minimum included) pays back exactly the deposit.
pub proof fn lemma_deposit_withdraw_round_trip(
    reserve_a: u64,
    reserve_b: u64,
    lp_supply: u64,
    amount_a: u64,
    amount_b: u64,
)
    requires
        deposit(reserve_a, reserve_b, lp_supply, amount_a, amount_b) is Ok,
        lp_supply == 0 ==> reserve_a == 0 && reserve_b == 0,
        reserve_a + amount_a <= u64::MAX,
        reserve_b + amount_b <= u64::MAX,
        ({
            let m = deposit(reserve_a, reserve_b, lp_supply, amount_a, amount_b)->Ok_0;
            lp_supply + m.to_user + m.to_burn_sink <= u64::MAX
        }),
    ensures
        ({
            let m = deposit(reserve_a, reserve_b, lp_supply, amount_a, amount_b)->Ok_0;
            let supply_after = (lp_supply + m.to_user + m.to_burn_sink) as u64;
            let out = withdraw(
                (reserve_a + amount_a) as u64,
                (reserve_b + amount_b) as u64,
                supply_after,
                0,
                m.to_user,
                0,
                0,
            );
            &&& out is Ok
            &&& out->Ok_0.amount_a <= amount_a
            &&& out->Ok_0.amount_b <= amount_b
            &&& lp_supply == 0 ==> withdraw(
                amount_a,
                amount_b,
                supply_after,
                0,
                supply_after,
                0,
                0,
            ) == Ok::<Withdrawal, AmmError>(
                Withdrawal { amount_a, amount_b, protocol_mint: 0 },
            )
        }),
{
    let m = deposit(reserve_a, reserve_b, lp_supply, amount_a, amount_b)->Ok_0;
    let u = m.to_user as int;
    let t = lp_supply + m.to_user + m.to_burn_sink;
    let na = reserve_a + amount_a;
    let nb = reserve_b + amount_b;
    if lp_supply == 0 {
        assert(u <= t);
        assert(u * amount_a <= amount_a * t) by (nonlinear_arith)
            requires
                0 <= u <= t,
                amount_a >= 0,
        ;
        assert(u * amount_b <= amount_b * t) by (nonlinear_arith)
            requires
                0 <= u <= t,
                amount_b >= 0,
        ;
        assert((t * amount_a) / t == amount_a as int) by (nonlinear_arith)
            requires
                t > 0,
        ;
        assert((t * amount_b) / t == amount_b as int) by (nonlinear_arith)
            requires
                t > 0,
        ;
    } else {
        let sa = amount_a * lp_supply;
        let sb = amount_b * lp_supply;
        assert(u * reserve_a <= sa) by (nonlinear_arith)
            requires
                0 <= u <= sa / reserve_a as int,
                reserve_a > 0,
        ;
        assert(u * reserve_b <= sb) by (nonlinear_arith)
            requires
                0 <= u <= sb / reserve_b as int,
                reserve_b > 0,
        ;
        assert(u * na <= amount_a * t) by (nonlinear_arith)
            requires
                u * reserve_a <= sa,
                sa == amount_a * lp_supply,
                na == reserve_a + amount_a,
                t == lp_supply + u,
                amount_a >= 0,
        ;
        assert(u * nb <= amount_b * t) by (nonlinear_arith)
            requires
                u * reserve_b <= sb,
                sb == amount_b * lp_supply,
                nb == reserve_b + amount_b,
                t == lp_supply + u,
                amount_b >= 0,
        ;
    }
    assert(t > 0);
    assert((u * na) / t <= amount_a) by (nonlinear_arith)
        requires
            u * na <= amount_a * t,
            t > 0,
            u >= 0,
            na >= 0,
    ;
    assert((u * nb) / t <= amount_b) by (nonlinear_arith)
        requires
            u * nb <= amount_b * t,
            t > 0,
            u >= 0,
            nb >= 0,
    ;
    assert((u * na) / t >= 0 && (u * nb) / t >= 0) by (nonlinear_arith)
        requires
            t > 0,
            u >= 0,
            na >= 0,
            nb >= 0,
    ;
}

} // verus!
