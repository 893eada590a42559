//! What the steps of the store and of the engine report.

use vstd::prelude::*;

verus! {

/// Why a step was refused. A refused step leaves the state as it was.
#[derive(Clone, Copy, Debug, PartialEq, Eq, Structural)]
pub enum OrderFlowError {
    /// The customer id and the wallet address belong to two different accounts.
    IdentityConflict,
    /// The wallet's signature on a claim was not good.
    InvalidSignature,
    /// No order has this id.
    OrderNotFound,
    /// No payment has this transaction id.
    PaymentNotFound,
    /// No account has this id.
    AccountNotFound,
    /// The lifecycle has no such edge.
    InvalidTransition,
    /// The change would leave an account with less than nothing.
    InsufficientFunds,
    /// The change would leave an account with more than a row can hold.
    OutOfRange,
    /// The order has been delivered and can no longer be reset.
    OrderModificationForbidden,
    /// A table cannot take another row.
    StoreFull,
}

/// The outcome of looking two identities up together.
pub enum Resolution {
    /// They belong to two different accounts.
    Conflict,
    /// At least one of them is known, and all that are known agree.
    Known(i64),
    /// Neither is known.
    Fresh,
}

/// What an insertion of an order did: the row's number either way.
#[derive(Clone, Copy, Debug, PartialEq, Eq, Structural)]
pub enum InsertOrderResult {
    Inserted(i64),
    AlreadyExists(i64),
}

/// What an insertion of a payment did: the transaction id either way.
#[derive(Debug)]
pub enum InsertPaymentResult {
    Inserted(String),
    AlreadyExists(String),
}

} // verus!
