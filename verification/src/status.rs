//! The status values of orders and payments, and the edges between them.

use vstd::prelude::*;

verus! {

/// Where an order stands in its lifecycle.
#[derive(Clone, Copy, Debug, PartialEq, Eq, Structural)]
pub enum OrderStatus {
    /// Received from the storefront, not yet stored.
    New,
    /// Stored, and no wallet has claimed it.
    Unclaimed,
    /// A wallet has claimed it; it waits for credit.
    Claimed,
    /// Paid from the account's credit.
    Paid,
    /// Cancelled by an administrator.
    Cancelled,
    /// Timed out before it was paid.
    Expired,
}

impl OrderStatus {
    /// `Paid`, `Cancelled` and `Expired` have no outgoing edge.
    pub open spec fn is_terminal(self) -> bool {
        self is Paid || self is Cancelled || self is Expired
    }

    /// An order in this status counts towards its account's pending value.
    pub open spec fn is_open(self) -> bool {
        self is Unclaimed || self is Claimed
    }

    /// The edges of the order lifecycle.
    pub open spec fn can_become(self, next: OrderStatus) -> bool {
        match self {
            OrderStatus::New => next is Unclaimed,
            OrderStatus::Unclaimed => next is Claimed || next is Cancelled || next is Expired,
            OrderStatus::Claimed => next is Paid || next is Cancelled || next is Expired,
            OrderStatus::Paid => false,
            OrderStatus::Cancelled => false,
            OrderStatus::Expired => false,
        }
    }

    pub fn terminal(self) -> (r: bool)
        ensures
            r == self.is_terminal(),
    {
        match self {
            OrderStatus::Paid | OrderStatus::Cancelled | OrderStatus::Expired => true,
            _ => false,
        }
    }

    pub fn open(self) -> (r: bool)
        ensures
            r == self.is_open(),
    {
        match self {
            OrderStatus::Unclaimed | OrderStatus::Claimed => true,
            _ => false,
        }
    }

    /// Whether the lifecycle has an edge from `self` to `next`.
    pub fn allows(self, next: OrderStatus) -> (r: bool)
        ensures
            r == self.can_become(next),
    {
        match self {
            OrderStatus::New => next == OrderStatus::Unclaimed,
            OrderStatus::Unclaimed => next == OrderStatus::Claimed || next
                == OrderStatus::Cancelled || next == OrderStatus::Expired,
            OrderStatus::Claimed => next == OrderStatus::Paid || next == OrderStatus::Cancelled
                || next == OrderStatus::Expired,
            _ => false,
        }
    }
}

/// Where a payment stands.
#[derive(Clone, Copy, Debug, PartialEq, Eq, Structural)]
pub enum TransferStatus {
    /// Seen by the wallet, not yet confirmed.
    Received,
    /// Confirmed: it counts towards the sender's spendable credit.
    Confirmed,
    /// Cancelled: it never counted and never will.
    Cancelled,
}

impl TransferStatus {
    /// Only `Received` can still change.
    pub open spec fn is_terminal(self) -> bool {
        !(self is Received)
    }

    pub fn terminal(self) -> (r: bool)
        ensures
            r == self.is_terminal(),
    {
        match self {
            TransferStatus::Received => false,
            _ => true,
        }
    }
}

/// How a payment reached the gateway.
#[derive(Clone, Copy, Debug, PartialEq, Eq, Structural)]
pub enum PaymentType {
    /// A transfer that a wallet reported.
    OnChain,
    /// A credit that an administrator issued by hand.
    Manual,
}

/// The two kinds of key under which an account is known.
#[derive(Clone, Copy, Debug, PartialEq, Eq, Structural)]
pub enum IdentityKind {
    CustomerId,
    WalletAddress,
}

/// Every terminal status is a dead end.
pub proof fn terminal_is_final(from: OrderStatus, to: OrderStatus)
    requires
        from.is_terminal(),
    ensures
        !from.can_become(to),
{
}

} // verus!
