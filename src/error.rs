//! What the ledger reports when a request is refused.
use vstd::prelude::*;

verus! {

/// Why a ledger request was refused. A refused request leaves the ledger as it was.
#[derive(PartialEq, Eq, Structural, Debug, Clone, Copy)]
pub enum LedgerError {
    /// The deposit does not cover the storage that an account record takes.
    InsufficientStorageDeposit,
    /// The account to close holds no registration.
    AccountNotRegistered,
    /// The sender holds no registration.
    SenderNotRegistered,
    /// The receiver holds no registration.
    ReceiverNotRegistered,
    /// The account still holds tokens and closing it was not forced.
    NonEmptyBalanceOnClose,
    /// A transfer of nothing.
    ZeroAmountTransfer,
    /// Sender and receiver are the same account.
    SelfTransfer,
    /// The sender holds less than the amount.
    InsufficientBalance,
}

/// The text that names each refusal.
pub open spec fn error_text(e: LedgerError) -> Seq<char> {
    match e {
        LedgerError::InsufficientStorageDeposit => "The attached deposit is less than the minimum storage balance"@,
        LedgerError::AccountNotRegistered => "The account is not registered"@,
        LedgerError::SenderNotRegistered => "The sender account is not registered"@,
        LedgerError::ReceiverNotRegistered => "The receiver account is not registered"@,
        LedgerError::NonEmptyBalanceOnClose => "Can't unregister the account with the positive balance without force"@,
        LedgerError::ZeroAmountTransfer => "The amount should be a positive number"@,
        LedgerError::SelfTransfer => "Sender and receiver should be different"@,
        LedgerError::InsufficientBalance => "The account doesn't have enough balance"@,
    }
}

impl LedgerError {
    /// The text that names this refusal.
    pub fn message(&self) -> (r: &'static str)
        ensures
            r@ == error_text(*self),
    {
        match self {
            LedgerError::InsufficientStorageDeposit => "The attached deposit is less than the minimum storage balance",
            LedgerError::AccountNotRegistered => "The account is not registered",
            LedgerError::SenderNotRegistered => "The sender account is not registered",
            LedgerError::ReceiverNotRegistered => "The receiver account is not registered",
            LedgerError::NonEmptyBalanceOnClose => "Can't unregister the account with the positive balance without force",
            LedgerError::ZeroAmountTransfer => "The amount should be a positive number",
            LedgerError::SelfTransfer => "Sender and receiver should be different",
            LedgerError::InsufficientBalance => "The account doesn't have enough balance",
        }
    }
}

} // verus!
