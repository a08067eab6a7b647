//! Why a ledger operation was refused.

use vstd::prelude::*;

verus! {

/// The reasons for which an operation leaves the ledger as it was.
#[derive(Debug, Clone, Copy, PartialEq, Eq)]
pub enum BankError {
    /// The amount is zero or negative.
    InvalidAmount,
    /// The actor's balance is below the amount asked for.
    InsufficientBalance,
    /// No investment has the given id.
    UnknownInvestment,
    /// The seller does not own the investment.
    UnauthorizedSale,
    /// The account is not in the ledger.
    UnknownAccount,
    /// The account is already in the ledger.
    DuplicateAccount,
    /// An investment with this id is already in the ledger.
    DuplicateInvestment,
    /// The id has not been issued yet: it is not below the next id.
    InvestmentIdNotIssued,
}

impl BankError {
    /// A sentence that describes the error.
    pub fn message(&self) -> &'static str {
        match self {
            BankError::InvalidAmount => "Amount should be greater than zero",
            BankError::InsufficientBalance => "Balance is too low",
            BankError::UnknownInvestment => "No investment with this id",
            BankError::UnauthorizedSale => "Seller can't sell an investment they don't own",
            BankError::UnknownAccount => "No account with this name",
            BankError::DuplicateAccount => "An account with this name already exists",
            BankError::DuplicateInvestment => "An investment with this id already exists",
            BankError::InvestmentIdNotIssued => "Investment id is not below the next id",
        }
    }
}

} // verus!
