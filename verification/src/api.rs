//! Public record types exchanged with the engine: the incoming transaction,
//! the outgoing per-client view, and the rejection reasons.
//!
//! Monetary values are fixed-point integers: a `Currency` value counts whole
//! units of the smallest denomination the caller chooses (for example
//! hundredths or ten-thousandths). The engine itself never scales or rounds;
//! it only adds and subtracts, and rejects any result that would leave the
//! representable range.
use vstd::prelude::*;

verus! {

/// Client identifier, as carried on every input record.
pub type ClientId = u16;

/// Transaction identifier, unique across a whole run.
pub type TransactionId = u32;

/// A monetary value in fixed-point units.
pub type Currency = i64;

/// The five operation kinds an input record can carry.
#[derive(Clone, Copy, Debug, PartialEq, Eq, Structural)]
pub enum Operation {
    Deposit,
    Withdrawal,
    Dispute,
    Resolve,
    Chargeback,
}

/// One input record, already decoded to plain values.
///
/// `amount` is required for `Deposit` and `Withdrawal` and ignored for the
/// three dispute-lifecycle operations.
#[derive(Clone, Copy, Debug)]
pub struct Transaction {
    pub id: TransactionId,
    pub operation: Operation,
    pub client_id: ClientId,
    pub amount: Option<Currency>,
}

/// The projection of one account, as reported after the run.
///
/// `allocated` is the derived total `balance + under_dispute`; it is carried
/// in a wider type because the sum of two in-range `Currency` values can
/// exceed the `Currency` range.
#[derive(Clone, Copy, Debug, PartialEq, Eq, Structural)]
pub struct Client {
    pub id: ClientId,
    pub balance: Currency,
    pub under_dispute: Currency,
    pub allocated: i128,
    pub is_frozen: bool,
}

/// Why a single transaction was rejected. A rejection never mutates any
/// account or adjustment and never stops the processing of later records.
#[derive(Clone, Copy, Debug, PartialEq, Eq, Structural)]
pub enum ApplyError {
    /// The target account is already frozen.
    FrozenAccount,
    /// The referenced adjustment is already `Invalid`.
    InvalidAdjustmentReferenced,
    /// A deposit or withdrawal carried no amount.
    MissingAmount,
    /// A deposit or withdrawal amount has no representable signed magnitude.
    AmountOutOfRange,
    /// A deposit or withdrawal re-used an existing transaction identifier.
    DuplicateTransactionId,
    /// A dispute, resolve or chargeback referenced an unknown identifier.
    UnknownTransactionReference,
    /// The referenced adjustment belongs to a different client.
    ClientMismatch,
    /// A dispute named a non-`Valid` adjustment, or a resolve or chargeback
    /// named one not under dispute.
    WrongLifecycleState,
    /// The candidate state would break a balance invariant.
    InvariantViolation,
}

} // verus!
