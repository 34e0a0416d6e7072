use vstd::prelude::*;
use crate::error::AmmError;
use crate::state::PoolState;

verus! {

/// The floor of the square root of `n`.
pub open spec fn floor_sqrt(n: nat) -> nat
    decreases n,
{
    if n == 0 {
        0
    } else {
        let r = floor_sqrt((n - 1) as nat);
        if (r + 1) * (r + 1) <= n {
            r + 1
        } else {
            r
        }
    }
}

/// `r` is the integer square root of `n`.
pub open spec fn is_floor_sqrt(n: int, r: int) -> bool {
    0 <= r && r * r <= n && n < (r + 1) * (r + 1)
}

pub proof fn lemma_floor_sqrt(n: nat)
    ensures
        is_floor_sqrt(n as int, floor_sqrt(n) as int),
    decreases n,
{
    if n > 0 {
        lemma_floor_sqrt((n - 1) as nat);
        let r = floor_sqrt((n - 1) as nat);
        if (r + 1) * (r + 1) <= n {
            assert(n < (r + 2) * (r + 2)) by (nonlinear_arith)
                requires
                    n - 1 < (r + 1) * (r + 1),
                    r >= 0,
            ;
        }
    }
}

pub proof fn lemma_floor_sqrt_unique(n: int, r: int)
    requires
        n >= 0,
        is_floor_sqrt(n, r),
    ensures
        r == floor_sqrt(n as nat),
{
    lemma_floor_sqrt(n as nat);
    let s = floor_sqrt(n as nat) as int;
    if r < s {
        assert((r + 1) * (r + 1) <= s * s) by (nonlinear_arith)
            requires
                0 <= r + 1 <= s,
        ;
    } else if s < r {
        assert((s + 1) * (s + 1) <= r * r) by (nonlinear_arith)
            requires
                0 <= s + 1 <= r,
        ;
    }
}

/// One Newton step never goes below the integer square root.
proof fn lemma_newton_step_above(n: int, x: int, q: int, y: int)
    requires
        n >= 0,
        x > 0,
        q == n / x,
        y == (x + q) / 2,
    ensures
        n < (y + 1) * (y + 1),
        n > 0 ==> y > 0,
{
    assert(n < (q + 1) * x) by (nonlinear_arith)
        requires
            x > 0,
            q == n / x,
    ;
    assert(4 * ((q + 1) * x) <= (x + q + 1) * (x + q + 1)) by (nonlinear_arith);
    assert(x + q + 1 <= 2 * (y + 1));
    assert((x + q + 1) * (x + q + 1) <= 4 * ((y + 1) * (y + 1))) by (nonlinear_arith)
        requires
            0 <= x + q + 1 <= 2 * (y + 1),
    ;
    if n > 0 && x == 1 {
        assert(q == n);
    }
}

/// From above the root, a Newton step strictly decreases.
proof fn lemma_newton_step_decreases(n: int, x: int, q: int, y: int)
    requires
        n >= 0,
        x > 0,
        n < x * x,
        q == n / x,
        y == (x + q) / 2,
    ensures
        y < x,
{
    assert(q < x) by (nonlinear_arith)
        requires
            x > 0,
            q == n / x,
            n < x * x,
            n >= 0,
    ;
}

/// `(x + n / x) / 2`, computed without an intermediate overflow.
fn newton_step(n: u128, x: u128) -> (y: u128)
    requires
        x > 0,
    ensures
        y == (x + n / x) / 2,
{
    let q = n / x;
    x / 2 + q / 2 + (x % 2 + q % 2) / 2
}

/// Integer square root by Newton's method: `Some(r)` where `r * r <= n < (r + 1) * (r + 1)`.
pub fn sqrt_u128(n: u128) -> (r: Option<u64>)
    ensures
        r == Some(floor_sqrt(n as nat) as u64),
        floor_sqrt(n as nat) <= u64::MAX,
        r matches Some(v) && is_floor_sqrt(n as int, v as int),
{
    proof {
        lemma_floor_sqrt(n as nat);
    }
    if n == 0 {
        return Some(0);
    }
    let mut x: u128 = n;
    let mut y: u128 = newton_step(n, x);
    proof {
        assert(n < (n + 1) * (n + 1)) by (nonlinear_arith);
        lemma_newton_step_above(n as int, x as int, (n / x) as int, y as int);
    }
    while y < x
        invariant
            n > 0,
            x > 0,
            n < (x + 1) * (x + 1),
            n < (y + 1) * (y + 1),
            y == (x + n / x) / 2,
            y > 0,
        decreases x,
    {
        x = y;
        y = newton_step(n, x);
        proof {
            lemma_newton_step_above(n as int, x as int, (n / x) as int, y as int);
        }
    }
    proof {
        if n < x * x {
            lemma_newton_step_decreases(n as int, x as int, (n / x) as int, y as int);
        }
        lemma_floor_sqrt_unique(n as int, x as int);
        assert(x <= u64::MAX) by (nonlinear_arith)
            requires
                x * x <= n,
                n <= u128::MAX,
                x > 0,
        ;
    }
    Some(x as u64)
}

/// Floors keep the order of two non-negative fractions.
pub proof fn lemma_floor_div_ordered(x: int, y: int, z: int, w: int)
    requires
        x >= 0,
        z >= 0,
        y > 0,
        w > 0,
        x * w <= z * y,
    ensures
        x / y <= z / w,
{
    let q = x / y;
    assert(q * y <= x && q >= 0) by (nonlinear_arith)
        requires
            y > 0,
            x >= 0,
            q == x / y,
    ;
    assert(q * w <= z) by (nonlinear_arith)
        requires
            q * y <= x,
            x * w <= z * y,
            y > 0,
            w > 0,
            q >= 0,
    ;
    assert(q <= z / w) by (nonlinear_arith)
        requires
            q * w <= z,
            w > 0,
    ;
}

/// `sqrt(a * b)` with the product taken at 128 bits, so it never overflows.
pub fn sqrt_product_u64(a: u64, b: u64) -> (r: Option<u64>)
    ensures
        r == Some(floor_sqrt((a * b) as nat) as u64),
        floor_sqrt((a * b) as nat) <= u64::MAX,
{
    proof {
        assert(a * b <= u64::MAX * u64::MAX) by (nonlinear_arith)
            requires
                a <= u64::MAX,
                b <= u64::MAX,
        ;
    }
    let product = (a as u128).checked_mul(b as u128)?;
    sqrt_u128(product)
}

/// One unit in Q64.64 fixed point.
pub const Q64: u128 = 0x1_0000_0000_0000_0000;

/// The Q64.64 price of one unit of the asset held in `den` reserve, in units of the other.
pub open spec fn q64_price(num: u64, den: u64) -> int {
    (num * Q64) as int / den as int
}

/// Seconds since the last oracle update, or 0 when time has not moved forward.
pub open spec fn twap_elapsed(last: u64, now: u64) -> int {
    if now > last {
        now - last
    } else {
        0
    }
}

/// The pool after the price oracle observes reserves `(reserve_a, reserve_b)` at time `now`.
pub open spec fn twap_update(p: PoolState, reserve_a: u64, reserve_b: u64, now: u64) -> Result<
    PoolState,
    AmmError,
> {
    let elapsed = twap_elapsed(p.block_timestamp_last, now);
    if elapsed > 0 && reserve_a != 0 && reserve_b != 0 {
        let ca = p.price_a_cumulative_last + q64_price(reserve_b, reserve_a) * elapsed;
        let cb = p.price_b_cumulative_last + q64_price(reserve_a, reserve_b) * elapsed;
        if ca > u128::MAX || cb > u128::MAX {
            Err(AmmError::MathOverflow)
        } else {
            Ok(
                PoolState {
                    price_a_cumulative_last: ca as u128,
                    price_b_cumulative_last: cb as u128,
                    block_timestamp_last: now,
                    ..p
                },
            )
        }
    } else {
        Ok(PoolState { block_timestamp_last: now, ..p })
    }
}

/// Adds `price * elapsed` to each cumulative price and records `now`.
/// On overflow the pool is left as it was.
pub fn update_twap(
    pool_state: &mut PoolState,
    reserve_a: u64,
    reserve_b: u64,
    current_timestamp: u64,
) -> (r: Result<(), AmmError>)
    ensures
        match twap_update(*old(pool_state), reserve_a, reserve_b, current_timestamp) {
            Ok(p) => r is Ok && *final(pool_state) == p,
            Err(e) => r == Err::<(), AmmError>(e) && *final(pool_state) == *old(pool_state),
        },
{
    let time_elapsed: u64 = if current_timestamp > pool_state.block_timestamp_last {
        current_timestamp - pool_state.block_timestamp_last
    } else {
        0
    };
    if time_elapsed > 0 && reserve_a != 0 && reserve_b != 0 {
        let price_a_fixed = (reserve_b as u128) * Q64 / (reserve_a as u128);
        let price_b_fixed = (reserve_a as u128) * Q64 / (reserve_b as u128);
        let growth_a = price_a_fixed.checked_mul(time_elapsed as u128);
        let growth_b = price_b_fixed.checked_mul(time_elapsed as u128);
        let (growth_a, growth_b) = match (growth_a, growth_b) {
            (Some(ga), Some(gb)) => (ga, gb),
            _ => {
                return Err(AmmError::MathOverflow);
            },
        };
        let cumulative_a = pool_state.price_a_cumulative_last.checked_add(growth_a);
        let cumulative_b = pool_state.price_b_cumulative_last.checked_add(growth_b);
        match (cumulative_a, cumulative_b) {
            (Some(ca), Some(cb)) => {
                pool_state.price_a_cumulative_last = ca;
                pool_state.price_b_cumulative_last = cb;
            },
            _ => {
                return Err(AmmError::MathOverflow);
            },
        }
    }
    pool_state.block_timestamp_last = current_timestamp;
    Ok(())
}

/// Basis points in one whole.
pub const BPS_DENOMINATOR: u64 = 10000;

/// LP tokens owed to the protocol for the invariant's growth from `k_last` to
/// `reserve_a * reserve_b`: `lp_supply * (sqrt(k) - sqrt(k_last)) * share / (sqrt(k) * (10000 - share))`.
/// `None` when a step of that chain overflows or divides by zero.
pub open spec fn protocol_fee_mint(
    reserve_a: u64,
    reserve_b: u64,
    k_last: u128,
    lp_supply: u64,
    protocol_fee_share: u64,
) -> Option<u64> {
    let k_now = reserve_a * reserve_b;
    if k_last == 0 || protocol_fee_share == 0 || k_now <= k_last {
        Some(0)
    } else {
        let root_now = floor_sqrt(k_now as nat);
        let root_last = floor_sqrt(k_last as nat);
        let numerator = lp_supply * (root_now - root_last) * protocol_fee_share;
        let denominator = root_now * (BPS_DENOMINATOR - protocol_fee_share);
        if numerator > u128::MAX || protocol_fee_share > BPS_DENOMINATOR || denominator == 0
            || numerator / denominator > u64::MAX {
            None
        } else {
            Some((numerator / denominator) as u64)
        }
    }
}

pub proof fn lemma_floor_sqrt_monotone(m: nat, n: nat)
    requires
        m <= n,
    ensures
        floor_sqrt(m) <= floor_sqrt(n),
{
    lemma_floor_sqrt(m);
    lemma_floor_sqrt(n);
    let a = floor_sqrt(m);
    let b = floor_sqrt(n);
    if b < a {
        assert((b + 1) * (b + 1) <= a * a) by (nonlinear_arith)
            requires
                b + 1 <= a,
        ;
    }
}

/// Computes the protocol's LP mint for the invariant's growth since the last settlement.
pub fn calculate_protocol_fee_mint(
    reserve_a: u64,
    reserve_b: u64,
    k_last: u128,
    lp_supply: u64,
    protocol_fee_share: u64,
) -> (r: Option<u64>)
    ensures
        r == protocol_fee_mint(reserve_a, reserve_b, k_last, lp_supply, protocol_fee_share),
{
    if k_last == 0 || protocol_fee_share == 0 {
        return Some(0);
    }
    proof {
        assert(reserve_a * reserve_b <= u64::MAX * u64::MAX) by (nonlinear_arith)
            requires
                reserve_a <= u64::MAX,
                reserve_b <= u64::MAX,
        ;
    }
    let k_now = (reserve_a as u128) * (reserve_b as u128);
    if k_now <= k_last {
        return Some(0);
    }
    let root_now = sqrt_u128(k_now)?;
    let root_last = sqrt_u128(k_last)?;
    proof {
        lemma_floor_sqrt_monotone(k_last as nat, k_now as nat);
    }
    let growth = root_now - root_last;
    proof {
        assert(lp_supply * growth <= u64::MAX * u64::MAX) by (nonlinear_arith)
            requires
                lp_supply <= u64::MAX,
                growth <= u64::MAX,
        ;
    }
    let scaled = (lp_supply as u128) * (growth as u128);
    let numerator = scaled.checked_mul(protocol_fee_share as u128)?;
    let remaining_share = BPS_DENOMINATOR.checked_sub(protocol_fee_share)?;
    proof {
        assert(root_now * remaining_share <= u64::MAX * BPS_DENOMINATOR) by (nonlinear_arith)
            requires
                root_now <= u64::MAX,
                remaining_share <= BPS_DENOMINATOR,
        ;
    }
    let denominator = (root_now as u128) * (remaining_share as u128);
    let minted = numerator.checked_div(denominator)?;
    if minted > u64::MAX as u128 {
        return None;
    }
    Some(minted as u64)
}

} // verus!
