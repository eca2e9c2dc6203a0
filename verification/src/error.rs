//! The ways in which an operation of the protocol can fail.

use vstd::prelude::*;

verus! {

/// Why an operation was refused. Every refusal leaves the state untouched.
#[derive(Clone, Copy, Debug, PartialEq, Eq, Structural)]
pub enum ErrorCode {
    /// A withdrawal or a seizure exceeds the shares held or the pool's reserve.
    InsufficientFunds,
    /// After the borrow or withdrawal the position would be undercollateralized.
    OverBorrowableAmount,
    /// A repayment exceeds what the position owes.
    OverRepay,
    /// A liquidation was attempted on a healthy position.
    NotUnderCollaterized,
    /// The clock reads earlier than the last accrual.
    InvalidTimestamp,
    /// The oracle price is too old, negative, or not for the asked feed.
    StaleOrMissing,
}

impl ErrorCode {
    /// The message shown for this error.
    pub fn message(&self) -> (text: &'static str)
        ensures
            text@ == self.message_spec(),
    {
        match self {
            ErrorCode::InsufficientFunds => "Insufficient Funds",
            ErrorCode::OverBorrowableAmount => "Over Borrowable Amount",
            ErrorCode::OverRepay => "Over Repay",
            ErrorCode::NotUnderCollaterized => "User is not under collaterized",
            ErrorCode::InvalidTimestamp => "Invalid Timestamp",
            ErrorCode::StaleOrMissing => "Stale Or Missing Price",
        }
    }

    /// The text of [`ErrorCode::message`].
    pub open spec fn message_spec(&self) -> Seq<char> {
        match self {
            ErrorCode::InsufficientFunds => "Insufficient Funds"@,
            ErrorCode::OverBorrowableAmount => "Over Borrowable Amount"@,
            ErrorCode::OverRepay => "Over Repay"@,
            ErrorCode::NotUnderCollaterized => "User is not under collaterized"@,
            ErrorCode::InvalidTimestamp => "Invalid Timestamp"@,
            ErrorCode::StaleOrMissing => "Stale Or Missing Price"@,
        }
    }
}

} // verus!
