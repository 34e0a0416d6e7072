use vstd::prelude::*;
use crate::error::AmmError;
use crate::math::lemma_floor_div_ordered;

verus! {

/// The input left after the swap fee: `amount_in * (fee_denominator - fee_numerator) / fee_denominator`.
pub open spec fn effective_input(amount_in: u64, fee_numerator: u64, fee_denominator: u64) -> int {
    (amount_in * (fee_denominator - fee_numerator)) / fee_denominator as int
}

/// Constant-product output for an input that reaches the pool whole.
pub open spec fn constant_product_out(reserve_in: u64, reserve_out: u64, amount_in: int) -> int {
    (reserve_out * amount_in) / (reserve_in + amount_in)
}

/// Output of a swap against reserves `(reserve_in, reserve_out)` after the fee is taken.
pub open spec fn quote(
    reserve_in: u64,
    reserve_out: u64,
    amount_in: u64,
    fee_numerator: u64,
    fee_denominator: u64,
) -> Result<u64, AmmError> {
    if fee_denominator == 0 || fee_numerator > fee_denominator || amount_in * (fee_denominator
        - fee_numerator) > u64::MAX {
        Err(AmmError::MathOverflow)
    } else {
        let eff = effective_input(amount_in, fee_numerator, fee_denominator);
        if reserve_in + eff == 0 {
            Err(AmmError::MathOverflow)
        } else {
            Ok(constant_product_out(reserve_in, reserve_out, eff) as u64)
        }
    }
}

proof fn lemma_quote_bounded(reserve_in: int, reserve_out: int, eff: int)
    requires
        reserve_in >= 0,
        reserve_out >= 0,
        eff >= 0,
        reserve_in + eff > 0,
    ensures
        0 <= (reserve_out * eff) / (reserve_in + eff) <= reserve_out,
        ((reserve_out * eff) / (reserve_in + eff)) * (reserve_in + eff) <= reserve_out * eff,
{
    let d = reserve_in + eff;
    let q = (reserve_out * eff) / d;
    assert(0 <= q && q * d <= reserve_out * eff) by (nonlinear_arith)
        requires
            d > 0,
            reserve_out * eff >= 0,
            q == (reserve_out * eff) / d,
    ;
    assert(q <= reserve_out) by (nonlinear_arith)
        requires
            d > 0,
            0 <= eff <= d,
            reserve_out >= 0,
            q * d <= reserve_out * eff,
    ;
}

/// Prices a swap of `amount_in` against `(reserve_in, reserve_out)` with the fee
/// `fee_numerator / fee_denominator` withheld from the input.
pub fn quote_swap(
    reserve_in: u64,
    reserve_out: u64,
    amount_in: u64,
    fee_numerator: u64,
    fee_denominator: u64,
) -> (r: Result<u64, AmmError>)
    ensures
        r == quote(reserve_in, reserve_out, amount_in, fee_numerator, fee_denominator),
{
    let kept = match fee_denominator.checked_sub(fee_numerator) {
        Some(v) => v,
        None => {
            return Err(AmmError::MathOverflow);
        },
    };
    let scaled = match amount_in.checked_mul(kept) {
        Some(v) => v,
        None => {
            return Err(AmmError::MathOverflow);
        },
    };
    let amount_in_effective = match scaled.checked_div(fee_denominator) {
        Some(v) => v,
        None => {
            return Err(AmmError::MathOverflow);
        },
    };
    let divisor = (reserve_in as u128) + (amount_in_effective as u128);
    if divisor == 0 {
        return Err(AmmError::MathOverflow);
    }
    proof {
        lemma_quote_bounded(reserve_in as int, reserve_out as int, amount_in_effective as int);
        assert(reserve_out * amount_in_effective <= u64::MAX * u64::MAX) by (nonlinear_arith)
            requires
                reserve_out <= u64::MAX,
                amount_in_effective <= u64::MAX,
        ;
    }
    let amount_out = (reserve_out as u128) * (amount_in_effective as u128) / divisor;
    Ok(amount_out as u64)
}

/// The fee never raises a quote: with a zero fee numerator the quote is the
/// plain constant-product output, and with a positive one it is at most that
/// output, while the exact (unfloored) fee-adjusted ratio is strictly smaller
/// whenever both reserves are non-empty.
pub proof fn lemma_fee_monotonicity(
    reserve_in: u64,
    reserve_out: u64,
    amount_in: u64,
    fee_numerator: u64,
    fee_denominator: u64,
)
    requires
        amount_in > 0,
        fee_denominator > 0,
        fee_numerator < fee_denominator,
        quote(reserve_in, reserve_out, amount_in, fee_numerator, fee_denominator) is Ok,
    ensures
        ({
            let out = quote(reserve_in, reserve_out, amount_in, fee_numerator, fee_denominator)->Ok_0;
            let no_fee = constant_product_out(reserve_in, reserve_out, amount_in as int);
            let eff = effective_input(amount_in, fee_numerator, fee_denominator);
            &&& fee_numerator == 0 ==> out == no_fee
            &&& fee_numerator > 0 ==> out <= no_fee
            &&& fee_numerator > 0 && reserve_in > 0 && reserve_out > 0 ==> reserve_out * eff * (
            reserve_in + amount_in) < reserve_out * amount_in * (reserve_in + eff)
        }),
{
    let ain = amount_in as int;
    let ri = reserve_in as int;
    let ro = reserve_out as int;
    let kept = (fee_denominator - fee_numerator) as int;
    let fd = fee_denominator as int;
    let eff = effective_input(amount_in, fee_numerator, fee_denominator);
    assert(0 <= eff <= ain) by (nonlinear_arith)
        requires
            eff == (ain * kept) / fd,
            0 < kept <= fd,
            ain > 0,
    ;
    lemma_quote_bounded(ri, ro, eff);
    if fee_numerator == 0 {
        assert(eff == ain) by (nonlinear_arith)
            requires
                eff == (ain * kept) / fd,
                kept == fd,
                fd > 0,
        ;
    } else {
        assert(eff < ain) by (nonlinear_arith)
            requires
                eff == (ain * kept) / fd,
                0 < kept < fd,
                ain > 0,
        ;
        assert(ro * eff * (ri + ain) <= ro * ain * (ri + eff)) by (nonlinear_arith)
            requires
                0 <= eff <= ain,
                ri >= 0,
                ro >= 0,
        ;
        lemma_floor_div_ordered(ro * eff, ri + eff, ro * ain, ri + ain);
        if ri > 0 && ro > 0 {
            assert(ro * eff * (ri + ain) < ro * ain * (ri + eff)) by (nonlinear_arith)
                requires
                    0 <= eff < ain,
                    ri > 0,
                    ro > 0,
            ;
        }
    }
}

/// A successful swap never shrinks the product of the reserves.
pub proof fn lemma_swap_keeps_invariant(
    reserve_in: u64,
    reserve_out: u64,
    amount_in: u64,
    fee_numerator: u64,
    fee_denominator: u64,
)
    requires
        quote(reserve_in, reserve_out, amount_in, fee_numerator, fee_denominator) is Ok,
    ensures
        ({
            let out = quote(reserve_in, reserve_out, amount_in, fee_numerator, fee_denominator)->Ok_0;
            &&& out <= reserve_out
            &&& (reserve_in + amount_in) * (reserve_out - out) >= reserve_in * reserve_out
        }),
{
    let ain = amount_in as int;
    let ri = reserve_in as int;
    let ro = reserve_out as int;
    let kept = (fee_denominator - fee_numerator) as int;
    let fd = fee_denominator as int;
    let eff = effective_input(amount_in, fee_numerator, fee_denominator);
    assert(0 <= eff <= ain) by (nonlinear_arith)
        requires
            eff == (ain * kept) / fd,
            0 <= kept <= fd,
            fd > 0,
            ain >= 0,
    ;
    lemma_quote_bounded(ri, ro, eff);
    let out = (ro * eff) / (ri + eff);
    assert((ri + ain) * (ro - out) >= ri * ro) by (nonlinear_arith)
        requires
            out * (ri + eff) <= ro * eff,
            0 <= out <= ro,
            0 <= eff <= ain,
            ri >= 0,
    ;
}

} // verus!
