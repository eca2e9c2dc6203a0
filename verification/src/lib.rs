//! Accounting and risk core of a two-asset collateralized lending protocol.
//!
//! Users deposit one asset and borrow the other. Balances compound
//! continuously, ownership of a pool is tracked in shares, and a position
//! whose collateral no longer backs its debt can be liquidated. All amounts
//! are unsigned integers; fractions are fixed-point.

pub mod accrual;
pub mod asset;
pub mod error;
pub mod instructions;
pub mod laws;
pub mod ledger;
pub mod liquidation;
pub mod math;
pub mod oracle;
pub mod pool;
pub mod position;
pub mod solvency;
