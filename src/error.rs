use vstd::prelude::*;

verus! {

/// Reasons a pool transition is rejected.
#[derive(Debug, Clone, Copy, PartialEq, Eq, Structural)]
pub enum AmmError {
    /// The two asset identifiers are not in strictly increasing order.
    InvalidMint,
    /// The swap fee is not a proper fraction with a non-zero denominator.
    InvalidFee,
    /// A vault account does not belong to the pool.
    InvalidVault,
    /// The LP mint does not match, or the holder has too few LP tokens.
    InvalidLpMint,
    /// A user token account holds the wrong asset.
    InvalidUserToken,
    /// A checked arithmetic step overflowed, underflowed or divided by zero.
    MathOverflow,
    /// The computed amount is below the caller's minimum.
    SlippageExceeded,
    /// The genesis deposit does not exceed the permanently locked liquidity.
    InitialLiquidityTooLow,
    /// The signer is not entitled to the governance action.
    Unauthorized,
    /// The protocol fee share is above its cap.
    InvalidFeeConfig,
}

} // verus!
