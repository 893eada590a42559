//! The rows of the store and the messages that create them, each with the
//! mathematical value that the contracts speak of.

use vstd::prelude::*;
use crate::outcome::OrderFlowError;
use crate::status::OrderStatus;
use crate::status::TransferStatus;
use crate::status::PaymentType;
use crate::status::IdentityKind;

verus! {

/// What an optional text holds, as a sequence of characters.
pub open spec fn optional_text(t: Option<String>) -> Option<Seq<char>> {
    match t {
        Some(s) => Some(s@),
        None => None,
    }
}

/// A copy of an optional text.
pub fn copy_optional_text(t: &Option<String>) -> (r: Option<String>)
    ensures
        optional_text(r) == optional_text(*t),
{
    match t {
        Some(s) => Some(s.clone()),
        None => None,
    }
}

/// A payer: the sums of what it has received, spent and still owes.
#[derive(Clone, Copy, Debug, PartialEq, Eq, Structural)]
pub struct Account {
    pub id: i64,
    /// Everything that confirmed payments have brought in.
    pub credits: u128,
    /// Everything that paid orders have taken out.
    pub debits: u128,
    /// The value of the orders that are stored and neither paid nor closed.
    pub pending: u128,
    pub created_at: i64,
    pub updated_at: i64,
}

impl Account {
    /// What is left to pay orders with.
    pub open spec fn spendable(self) -> int {
        self.credits - self.debits
    }

    /// An account never spends more than it has received.
    pub open spec fn solvent(self) -> bool {
        self.credits >= self.debits
    }

    /// A new account, with nothing on it.
    pub fn opened(id: i64, now: i64) -> (r: Account)
        ensures
            r == (Account { id, credits: 0, debits: 0, pending: 0, created_at: now, updated_at: now }),
    {
        Account { id, credits: 0, debits: 0, pending: 0, created_at: now, updated_at: now }
    }

    /// The spendable credit; zero for an account that is not solvent.
    pub fn balance(&self) -> (r: u128)
        ensures
            self.solvent() ==> r == self.spendable(),
            !self.solvent() ==> r == 0,
    {
        if self.credits >= self.debits {
            self.credits - self.debits
        } else {
            0
        }
    }
}

/// What a signed change does to one sum of an account.
pub enum Shifted {
    /// The sum would fall below zero.
    Below,
    /// The sum would no longer fit.
    Above,
    /// The new sum.
    To(u128),
}

pub open spec fn shifted(v: u128, delta: i128) -> Shifted {
    if v + delta < 0 {
        Shifted::Below
    } else if v + delta > u128::MAX {
        Shifted::Above
    } else {
        Shifted::To((v + delta) as u128)
    }
}

/// Applies a signed change to a sum.
pub fn shift(v: u128, delta: i128) -> (r: Shifted)
    ensures
        r == shifted(v, delta),
{
    if delta >= 0 {
        let up: u128 = delta as u128;
        if up > u128::MAX - v {
            Shifted::Above
        } else {
            Shifted::To(v + up)
        }
    } else {
        let down: u128 = if delta == i128::MIN {
            170141183460469231731687303715884105728u128
        } else {
            (-delta) as u128
        };
        if down > v {
            Shifted::Below
        } else {
            Shifted::To(v - down)
        }
    }
}

impl Account {
    /// The account after signed changes to its three sums, or why they
    /// cannot be made: a sum would fall below zero or the debits exceed the
    /// credits (`InsufficientFunds`), or a sum would no longer fit
    /// (`OutOfRange`).
    pub open spec fn adjusted(self, credits: int, debits: int, pending: int, now: i64) -> Result<
        Account,
        OrderFlowError,
    > {
        let c = self.credits + credits;
        let d = self.debits + debits;
        let p = self.pending + pending;
        if c < 0 || d < 0 || p < 0 {
            Err(OrderFlowError::InsufficientFunds)
        } else if c > u128::MAX || d > u128::MAX || p > u128::MAX {
            Err(OrderFlowError::OutOfRange)
        } else if c < d {
            Err(OrderFlowError::InsufficientFunds)
        } else {
            Ok(
                Account {
                    credits: c as u128,
                    debits: d as u128,
                    pending: p as u128,
                    updated_at: now,
                    ..self
                },
            )
        }
    }

    /// Applies signed changes to the three sums.
    pub fn adjust(&self, credits: i128, debits: i128, pending: i128, now: i64) -> (r: Result<
        Account,
        OrderFlowError,
    >)
        ensures
            r == self.adjusted(credits as int, debits as int, pending as int, now),
    {
        let c = shift(self.credits, credits);
        let d = shift(self.debits, debits);
        let p = shift(self.pending, pending);
        match (c, d, p) {
            (Shifted::To(c), Shifted::To(d), Shifted::To(p)) => {
                if c < d {
                    Err(OrderFlowError::InsufficientFunds)
                } else {
                    Ok(
                        Account {
                            id: self.id,
                            credits: c,
                            debits: d,
                            pending: p,
                            created_at: self.created_at,
                            updated_at: now,
                        },
                    )
                }
            },
            (Shifted::Below, _, _) | (_, Shifted::Below, _) | (_, _, Shifted::Below) => Err(
                OrderFlowError::InsufficientFunds,
            ),
            _ => Err(OrderFlowError::OutOfRange),
        }
    }
}

/// A wallet's claim on an order, and whether its signature has been checked
/// and found good.
#[derive(Debug)]
pub struct WalletClaim {
    pub address: String,
    pub verified: bool,
}

pub struct WalletClaimView {
    pub address: Seq<char>,
    pub verified: bool,
}

impl View for WalletClaim {
    type V = WalletClaimView;

    open spec fn view(&self) -> WalletClaimView {
        WalletClaimView { address: self.address@, verified: self.verified }
    }
}

pub open spec fn optional_claim(c: Option<WalletClaim>) -> Option<WalletClaimView> {
    match c {
        Some(w) => Some(w@),
        None => None,
    }
}

/// An order as the storefront announces it.
#[derive(Debug)]
pub struct NewOrder {
    pub order_id: String,
    pub customer_id: Option<String>,
    pub amount: u64,
    pub memo: Option<String>,
    pub created_at: i64,
    pub claim: Option<WalletClaim>,
}

pub struct NewOrderView {
    pub order_id: Seq<char>,
    pub customer_id: Option<Seq<char>>,
    pub amount: u64,
    pub memo: Option<Seq<char>>,
    pub created_at: i64,
    pub claim: Option<WalletClaimView>,
}

impl View for NewOrder {
    type V = NewOrderView;

    open spec fn view(&self) -> NewOrderView {
        NewOrderView {
            order_id: self.order_id@,
            customer_id: optional_text(self.customer_id),
            amount: self.amount,
            memo: optional_text(self.memo),
            created_at: self.created_at,
            claim: optional_claim(self.claim),
        }
    }
}

/// A stored order.
#[derive(Debug)]
pub struct Order {
    pub order_id: String,
    pub customer_id: Option<String>,
    pub account_id: i64,
    pub amount: u64,
    pub memo: Option<String>,
    pub status: OrderStatus,
    pub created_at: i64,
    pub updated_at: i64,
    /// Set once the storefront has delivered the goods.
    pub fulfilled: bool,
}

pub struct OrderView {
    pub order_id: Seq<char>,
    pub customer_id: Option<Seq<char>>,
    pub account_id: i64,
    pub amount: u64,
    pub memo: Option<Seq<char>>,
    pub status: OrderStatus,
    pub created_at: i64,
    pub updated_at: i64,
    pub fulfilled: bool,
}

impl View for Order {
    type V = OrderView;

    open spec fn view(&self) -> OrderView {
        OrderView {
            order_id: self.order_id@,
            customer_id: optional_text(self.customer_id),
            account_id: self.account_id,
            amount: self.amount,
            memo: optional_text(self.memo),
            status: self.status,
            created_at: self.created_at,
            updated_at: self.updated_at,
            fulfilled: self.fulfilled,
        }
    }
}

impl Order {
    /// A copy of the row.
    pub fn copy(&self) -> (r: Order)
        ensures
            r@ == self@,
    {
        Order {
            order_id: self.order_id.clone(),
            customer_id: copy_optional_text(&self.customer_id),
            account_id: self.account_id,
            amount: self.amount,
            memo: copy_optional_text(&self.memo),
            status: self.status,
            created_at: self.created_at,
            updated_at: self.updated_at,
            fulfilled: self.fulfilled,
        }
    }
}

/// A payment as the wallet announces it.
#[derive(Debug)]
pub struct NewPayment {
    pub txid: String,
    pub sender: String,
    pub amount: u64,
    pub memo: Option<String>,
    pub order_id: Option<String>,
}

pub struct NewPaymentView {
    pub txid: Seq<char>,
    pub sender: Seq<char>,
    pub amount: u64,
    pub memo: Option<Seq<char>>,
    pub order_id: Option<Seq<char>>,
}

impl View for NewPayment {
    type V = NewPaymentView;

    open spec fn view(&self) -> NewPaymentView {
        NewPaymentView {
            txid: self.txid@,
            sender: self.sender@,
            amount: self.amount,
            memo: optional_text(self.memo),
            order_id: optional_text(self.order_id),
        }
    }
}

/// A stored payment.
#[derive(Debug)]
pub struct Payment {
    pub txid: String,
    pub sender: String,
    /// The account that the sender's address belongs to.
    pub account_id: i64,
    pub amount: u64,
    pub memo: Option<String>,
    pub order_id: Option<String>,
    pub payment_type: PaymentType,
    pub status: TransferStatus,
    pub created_at: i64,
}

pub struct PaymentView {
    pub txid: Seq<char>,
    pub sender: Seq<char>,
    pub account_id: i64,
    pub amount: u64,
    pub memo: Option<Seq<char>>,
    pub order_id: Option<Seq<char>>,
    pub payment_type: PaymentType,
    pub status: TransferStatus,
    pub created_at: i64,
}

impl View for Payment {
    type V = PaymentView;

    open spec fn view(&self) -> PaymentView {
        PaymentView {
            txid: self.txid@,
            sender: self.sender@,
            account_id: self.account_id,
            amount: self.amount,
            memo: optional_text(self.memo),
            order_id: optional_text(self.order_id),
            payment_type: self.payment_type,
            status: self.status,
            created_at: self.created_at,
        }
    }
}

impl Payment {
    /// A copy of the row.
    pub fn copy(&self) -> (r: Payment)
        ensures
            r@ == self@,
    {
        Payment {
            txid: self.txid.clone(),
            sender: self.sender.clone(),
            account_id: self.account_id,
            amount: self.amount,
            memo: copy_optional_text(&self.memo),
            order_id: copy_optional_text(&self.order_id),
            payment_type: self.payment_type,
            status: self.status,
            created_at: self.created_at,
        }
    }
}

/// One key under which an account is known.
#[derive(Debug)]
pub struct IdentityLink {
    pub kind: IdentityKind,
    pub key: String,
    pub account_id: i64,
}

pub struct LinkView {
    pub kind: IdentityKind,
    pub key: Seq<char>,
    pub account_id: i64,
}

impl View for IdentityLink {
    type V = LinkView;

    open spec fn view(&self) -> LinkView {
        LinkView { kind: self.kind, key: self.key@, account_id: self.account_id }
    }
}

/// A credit that an administrator grants a customer without a transfer.
#[derive(Debug)]
pub struct CreditNote {
    pub customer_id: String,
    pub amount: u64,
    pub reason: Option<String>,
}

pub struct CreditNoteView {
    pub customer_id: Seq<char>,
    pub amount: u64,
    pub reason: Option<Seq<char>>,
}

impl View for CreditNote {
    type V = CreditNoteView;

    open spec fn view(&self) -> CreditNoteView {
        CreditNoteView {
            customer_id: self.customer_id@,
            amount: self.amount,
            reason: optional_text(self.reason),
        }
    }
}

impl WalletClaim {
    /// A copy of the claim.
    pub fn copy(&self) -> (r: WalletClaim)
        ensures
            r@ == self@,
    {
        WalletClaim { address: self.address.clone(), verified: self.verified }
    }
}

impl NewOrder {
    /// A copy of the order.
    pub fn copy(&self) -> (r: NewOrder)
        ensures
            r@ == self@,
    {
        NewOrder {
            order_id: self.order_id.clone(),
            customer_id: copy_optional_text(&self.customer_id),
            amount: self.amount,
            memo: copy_optional_text(&self.memo),
            created_at: self.created_at,
            claim: match &self.claim {
                Some(c) => Some(c.copy()),
                None => None,
            },
        }
    }
}

impl NewPayment {
    /// A copy of the payment.
    pub fn copy(&self) -> (r: NewPayment)
        ensures
            r@ == self@,
    {
        NewPayment {
            txid: self.txid.clone(),
            sender: self.sender.clone(),
            amount: self.amount,
            memo: copy_optional_text(&self.memo),
            order_id: copy_optional_text(&self.order_id),
        }
    }
}

} // verus!
