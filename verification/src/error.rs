use vstd::prelude::*;

verus! {

/// Typed failure conditions. Every fallible lookup and validation step
/// reports one of these; no operation aborts the process.
#[derive(Debug, PartialEq, Eq)]
pub enum ContractError {
    /// Generic failure of the surrounding environment (storage,
    /// serialization, arithmetic of the host), carried as a message.
    Std(String),
    /// An entity lookup (user, project, offer, purchase) found no match.
    NotFound {},
    /// The calling actor is not the recorded owner of the entity.
    Unauthorized {},
    /// No funds entry was attached to a purchase.
    NoFunds {},
    /// A numeric value does not fit the receiving integer type.
    AmountOverflow {},
    /// The attached amount is below the offer's minimum price.
    InsufficientFunds {},
    /// The single attached funds entry is not of the expected denomination.
    MissingDenom(String),
    /// More than one denomination was attached.
    ExtraDenoms(String),
    /// The attached denomination is not a valid address.
    InvalidDenom(String),
    /// An address and a denomination were mixed up in a funds entry.
    MixedNativeAndCw20(String),
    /// A message carried no payload where one was required.
    NoData {},
}

} // verus!
