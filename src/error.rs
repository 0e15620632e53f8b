//! Errors that the contract's operations return.
use vstd::prelude::*;

verus! {

/// Why `cosmwasm_std::instantiate2_address` refused to derive an address.
#[derive(Debug, PartialEq, Eq)]
pub enum AddressDerivationError {
    /// The code checksum is not 32 bytes long.
    InvalidChecksumLength,
    /// The salt is empty or longer than 64 bytes.
    InvalidSaltLength,
}

#[derive(Debug, PartialEq, Eq)]
pub enum ContractError {
    /// The caller is not the admin.
    Unauthorized,
    /// The contract has been locked.
    ContractNotMutable,
    /// The proposed percentages add up to more than one whole.
    PercentageLimitExceeded,
    /// The proposed percentages add up to less than one whole.
    PercentageLimitNotMet,
    /// The host refused a recipient address.
    InvalidRecipient,
    /// No share is held by the requested recipient.
    NotFound,
    /// A reply arrived under an identifier that no instantiation is waiting for.
    InstantiateError,
    /// The child's address could not be derived.
    AddressDerivation(AddressDerivationError),
    /// A failure reported by the host, passed on with its message.
    Std { msg: String },
}

} // verus!
