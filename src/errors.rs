use vstd::prelude::*;

verus! {

/// Why a record was refused for reasons of its own shape or of the ledger.
/// Each variant carries the offending transaction ID.
#[derive(Debug, Clone, Copy, PartialEq, Eq, Structural)]
pub enum TransactionError {
    /// A deposit or withdrawal reused an ID already in the ledger.
    AlreadyExists(u32),
    /// A dispute-lifecycle event named an ID that is not in the ledger.
    NonexistentTransaction(u32),
    /// A deposit or withdrawal carried an amount that is zero or negative.
    AmountNotPositive(u32),
    /// A dispute-lifecycle event named another client than the referenced transaction.
    ClientMismatch(u32),
    /// A resolve or chargeback named a transaction that is not under dispute.
    NonexistentDispute(u32),
    /// A dispute named a transaction that is already under dispute.
    DisputeAlreadyExists(u32),
    /// A deposit or withdrawal came without an amount.
    MissingAmount(u32),
    /// A dispute-lifecycle event came with an amount.
    SuperfluousAmount(u32),
}

/// Why a record was refused for reasons of the client's account.
#[derive(Debug, Clone, Copy, PartialEq, Eq, Structural)]
pub enum ClientError {
    /// The account is locked after a chargeback.
    Locked(u32),
    /// A withdrawal asked for as much as, or more than, the available funds.
    InsufficientFunds(u32),
}

/// Any reason for which the engine refuses one record.
#[derive(Debug, Clone, Copy, PartialEq, Eq, Structural)]
pub enum Error {
    Transaction(TransactionError),
    Client(ClientError),
}

} // verus!
