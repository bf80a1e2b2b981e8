//! Why the ledger stops.

use vstd::prelude::*;

verus! {

/// A fault that ends a run: the ledger must not report balances computed
/// from a record that it could not apply.
#[derive(Clone, Copy, Debug, PartialEq, Eq, Structural)]
pub enum LedgerError {
    /// A deposit came without an amount.
    DepositWithoutAmount,
    /// A withdrawal came without an amount.
    WithdrawWithoutAmount,
    /// A dispute or a chargeback named a stored transaction that has no
    /// amount.
    DisputeWithoutAmount,
    /// A resolve named a stored transaction that has no amount.
    ResolveWithoutAmount,
    /// A balance left the range that an account can hold.
    Overflow,
}

impl LedgerError {
    /// The text shown to the user for this fault.
    pub open spec fn text(self) -> Seq<char> {
        match self {
            LedgerError::DepositWithoutAmount => "Deposit transaction without amount"@,
            LedgerError::WithdrawWithoutAmount => "Withdraw transaction without amount"@,
            LedgerError::DisputeWithoutAmount => "Dispute references transaction without amount"@,
            LedgerError::ResolveWithoutAmount => "Resolve references transaction without amount"@,
            LedgerError::Overflow => "Balance out of range"@,
        }
    }

    /// The text shown to the user for this fault.
    pub fn message(&self) -> (result: &'static str)
        ensures
            result@ == self.text(),
    {
        match self {
            LedgerError::DepositWithoutAmount => "Deposit transaction without amount",
            LedgerError::WithdrawWithoutAmount => "Withdraw transaction without amount",
            LedgerError::DisputeWithoutAmount => "Dispute references transaction without amount",
            LedgerError::ResolveWithoutAmount => "Resolve references transaction without amount",
            LedgerError::Overflow => "Balance out of range",
        }
    }
}

} // verus!
