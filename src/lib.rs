//! Accounting and pricing core of a two-asset constant-product market maker.
pub mod contexts;
pub mod error;
pub mod instructions;
pub mod liquidity;
pub mod math;
pub mod pricing;
pub mod state;
