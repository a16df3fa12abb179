//! Error values returned by the locker.

use vstd::prelude::*;

verus! {

/// Rejections reported by the token ledger.
#[derive(Debug, PartialEq, Eq, Clone, Copy, Structural)]
pub enum Erc20Error {
    /// The holder's balance does not cover the amount.
    InsufficientBalance,
    /// The allowance granted to the locker does not cover the amount.
    InsufficientAllowance,
    /// The ledger was asked by an account that does not own it.
    NotOwner,
    /// The balance to burn from is too small.
    BalanceNotEnough,
}

/// Every way an operation of the locker can fail.
#[derive(Debug, PartialEq, Eq, Clone, Copy, Structural)]
pub enum Error {
    /// No destination is registered for the target chain and action.
    MethodNotRegistered,
    /// The ledger executed the call and rejected it.
    Erc20Error(Erc20Error),
    /// The call to the ledger could not be made or did not complete.
    CrossContractCallError,
    /// The token ledger's address has not been set.
    TokenContractNotSet,
    /// The messenger's address has not been set.
    CrossChainContractNotSet,
    /// The caller is not the owner, not the designated entry point, or the
    /// remote sender is not permitted.
    AuthorizationError,
    /// The message body is malformed, or a field is missing or of another type.
    CodecError,
    /// A delivery policy already holds an item of that type.
    DuplicateQoSType,
}

/// The classes into which the errors fall.
#[derive(Debug, PartialEq, Eq, Clone, Copy, Structural)]
pub enum ErrorKind {
    AuthorizationError,
    NotRegistered,
    LedgerError,
    CrossContractCallError,
    CodecError,
    PolicyConflict,
    ConfigurationError,
}

impl Error {
    /// The class of an error, as a specification.
    pub open spec fn spec_kind(self) -> ErrorKind {
        match self {
            Error::MethodNotRegistered => ErrorKind::NotRegistered,
            Error::Erc20Error(_) => ErrorKind::LedgerError,
            Error::CrossContractCallError => ErrorKind::CrossContractCallError,
            Error::TokenContractNotSet => ErrorKind::ConfigurationError,
            Error::CrossChainContractNotSet => ErrorKind::ConfigurationError,
            Error::AuthorizationError => ErrorKind::AuthorizationError,
            Error::CodecError => ErrorKind::CodecError,
            Error::DuplicateQoSType => ErrorKind::PolicyConflict,
        }
    }

    /// The class of this error.
    pub fn kind(&self) -> (k: ErrorKind)
        ensures
            k == self.spec_kind(),
    {
        match self {
            Error::MethodNotRegistered => ErrorKind::NotRegistered,
            Error::Erc20Error(_) => ErrorKind::LedgerError,
            Error::CrossContractCallError => ErrorKind::CrossContractCallError,
            Error::TokenContractNotSet => ErrorKind::ConfigurationError,
            Error::CrossChainContractNotSet => ErrorKind::ConfigurationError,
            Error::AuthorizationError => ErrorKind::AuthorizationError,
            Error::CodecError => ErrorKind::CodecError,
            Error::DuplicateQoSType => ErrorKind::PolicyConflict,
        }
    }
}

} // verus!
