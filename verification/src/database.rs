//! What the engine asks of a database, and the database that the engine
//! itself is over its store in memory.

use vstd::prelude::*;
use crate::flow::OrderFlow;
use crate::flow::order_ids;
use crate::ledger::Ledger;
use crate::outcome::OrderFlowError;
use crate::records::Account;
use crate::records::NewOrder;
use crate::records::NewPayment;
use crate::records::Order;
use crate::status::IdentityKind;
use crate::status::TransferStatus;
use crate::steps::order_intake;
use crate::steps::payment_intake;
use crate::steps::payment_status_step;
use crate::steps::payable;
use crate::steps::pay_listed;
use crate::steps::paid_of_listed;
use crate::store::order_views;

pub use crate::outcome::InsertOrderResult;
pub use crate::outcome::InsertPaymentResult;

verus! {

/// The customer that an order names, if an order is given and names one.
pub open spec fn customer_of(order: Option<NewOrder>) -> Option<Seq<char>> {
    match order {
        Some(o) => o@.customer_id,
        None => None,
    }
}

/// The sender of a payment, if a payment is given.
pub open spec fn sender_of(payment: Option<NewPayment>) -> Option<Seq<char>> {
    match payment {
        Some(p) => Some(p@.sender),
        None => None,
    }
}

/// The transactions that the order flow is built from. Each keeps the
/// state sound, and each either takes effect as a whole or not at all.
pub trait PaymentGatewayDatabase: Sized {
    /// The state that the database holds.
    spec fn ledger(&self) -> Ledger;

    /// Finds the account of the order's customer and the payment's sender,
    /// or opens one. Where both are known and belong to different accounts
    /// it fails with `IdentityConflict`.
    fn fetch_or_create_account(
        &mut self,
        cust_id: Option<NewOrder>,
        pubkey: Option<NewPayment>,
        now: i64,
    ) -> (r: Result<i64, OrderFlowError>)
        requires
            old(self).ledger().sound(),
        ensures
            r == old(self).ledger().resolved_account(customer_of(cust_id), sender_of(pubkey)),
            final(self).ledger() == old(self).ledger().after_resolving(
                customer_of(cust_id),
                sender_of(pubkey),
                now,
            ),
            final(self).ledger().sound(),
    ;

    /// Stores a new order, opens an account for its customer where there is
    /// none, and adds the order's amount to what the account has pending.
    /// An order that is known already changes nothing. It gives the
    /// customer's account.
    fn process_new_order_for_customer(&mut self, order: NewOrder, now: i64) -> (r: Result<
        i64,
        OrderFlowError,
    >)
        requires
            old(self).ledger().sound(),
        ensures
            final(self).ledger() == order_intake(old(self).ledger(), order@, now).ledger,
            r == order_intake(old(self).ledger(), order@, now).result,
            final(self).ledger().sound(),
    ;

    /// Stores a new payment as received and opens an account for its sender
    /// where there is none. A payment that is known already changes
    /// nothing. It gives the sender's account.
    fn process_new_payment_for_pubkey(&mut self, payment: NewPayment, now: i64) -> (r: Result<
        i64,
        OrderFlowError,
    >)
        requires
            old(self).ledger().sound(),
        ensures
            final(self).ledger() == payment_intake(old(self).ledger(), payment@, now).ledger,
            r == payment_intake(old(self).ledger(), payment@, now).result,
            final(self).ledger().sound(),
    ;

    /// The orders of the account that its credit can pay now, in the order
    /// of paying; none where the account is unknown.
    fn fetch_payable_orders(&self, account_id: i64) -> (r: Result<Vec<Order>, OrderFlowError>)
        requires
            self.ledger().sound(),
        ensures
            r matches Ok(orders) && order_views(orders@) == (if self.ledger().has_account(
                account_id,
            ) {
                payable(self.ledger(), account_id)
            } else {
                Seq::empty()
            }),
    ;

    /// Pays each order of the list that the account can pay when its turn
    /// comes, and gives the orders that were paid.
    fn try_pay_orders(&mut self, account_id: i64, orders: &[Order], now: i64) -> (r: Result<
        Vec<Order>,
        OrderFlowError,
    >)
        requires
            old(self).ledger().sound(),
        ensures
            final(self).ledger() == pay_listed(
                old(self).ledger(),
                account_id,
                order_ids(orders@),
                now,
            ),
            r matches Ok(paid) && order_views(paid@) == paid_of_listed(
                old(self).ledger(),
                account_id,
                order_ids(orders@),
                now,
            ),
            final(self).ledger().sound(),
    ;

    /// Moves a received payment to `Confirmed` or `Cancelled`. A payment
    /// that is not `Received` is refused. Where the status does not change,
    /// nothing changes and nothing is given; where it does, the payment's
    /// account is given, and a confirmation adds the amount to its credits.
    fn update_payment_status(&mut self, tx_id: &str, status: TransferStatus, now: i64) -> (r:
        Result<Option<i64>, OrderFlowError>)
        requires
            old(self).ledger().sound(),
        ensures
            r == old(self).ledger().payment_update(tx_id@, status),
            final(self).ledger() == payment_status_step(old(self).ledger(), tx_id@, status, now),
            final(self).ledger().sound(),
    ;

    /// Closes the database. Nothing that it holds changes.
    fn close(&mut self) -> (r: Result<(), OrderFlowError>)
        ensures
            final(self).ledger() == old(self).ledger(),
            r is Ok,
    {
        Ok(())
    }
}

impl PaymentGatewayDatabase for OrderFlow {
    open spec fn ledger(&self) -> Ledger {
        self@
    }

    fn fetch_or_create_account(
        &mut self,
        cust_id: Option<NewOrder>,
        pubkey: Option<NewPayment>,
        now: i64,
    ) -> (r: Result<i64, OrderFlowError>) {
        let customer: Option<&str> = match &cust_id {
            Some(o) => match &o.customer_id {
                Some(c) => Some(c.as_str()),
                None => None,
            },
            None => None,
        };
        let address: Option<&str> = match &pubkey {
            Some(p) => Some(p.sender.as_str()),
            None => None,
        };
        self.resolve_account(customer, address, now)
    }

    fn process_new_order_for_customer(&mut self, order: NewOrder, now: i64) -> (r: Result<
        i64,
        OrderFlowError,
    >) {
        self.store_order(order, now)
    }

    fn process_new_payment_for_pubkey(&mut self, payment: NewPayment, now: i64) -> (r: Result<
        i64,
        OrderFlowError,
    >) {
        self.store_payment(payment, now)
    }

    fn fetch_payable_orders(&self, account_id: i64) -> (r: Result<Vec<Order>, OrderFlowError>) {
        if self.account(account_id).is_some() {
            Ok(self.payable_orders(account_id))
        } else {
            let none: Vec<Order> = Vec::new();
            assert(order_views(none@) =~= Seq::empty());
            Ok(none)
        }
    }

    fn try_pay_orders(&mut self, account_id: i64, orders: &[Order], now: i64) -> (r: Result<
        Vec<Order>,
        OrderFlowError,
    >) {
        Ok(self.pay_listed_orders(account_id, orders, now))
    }

    fn update_payment_status(&mut self, tx_id: &str, status: TransferStatus, now: i64) -> (r:
        Result<Option<i64>, OrderFlowError>) {
        self.set_payment_status(tx_id, status, now)
    }
}

/// The account that holds an order.
pub open spec fn account_of_order(s: Ledger, order_id: Seq<char>) -> Option<Account> {
    match s.order_position(order_id) {
        Some(i) => if s.has_account(s.orders[i].account_id) {
            Some(s.account(s.orders[i].account_id))
        } else {
            None
        },
        None => None,
    }
}

/// The account that a key belongs to.
pub open spec fn account_of_key(s: Ledger, kind: IdentityKind, key: Seq<char>) -> Option<Account> {
    match s.resolve(kind, key) {
        Some(a) => if s.has_account(a) {
            Some(s.account(a))
        } else {
            None
        },
        None => None,
    }
}

/// Reading accounts: by id, by an order that they hold, and by either kind
/// of key.
pub trait AccountManagement {
    /// The state that the accounts are read from.
    spec fn book(&self) -> Ledger;

    /// The account with this id, if there is one.
    fn fetch_user_account(&self, account_id: i64) -> (r: Result<Option<Account>, OrderFlowError>)
        requires
            self.book().sound(),
        ensures
            r == Ok::<Option<Account>, OrderFlowError>(
                if self.book().has_account(account_id) {
                    Some(self.book().account(account_id))
                } else {
                    None
                },
            ),
    ;

    /// The account that holds the order, if the order is known.
    fn fetch_user_account_for_order(&self, order_id: &str) -> (r: Result<
        Option<Account>,
        OrderFlowError,
    >)
        requires
            self.book().sound(),
        ensures
            r == Ok::<Option<Account>, OrderFlowError>(account_of_order(self.book(), order_id@)),
    ;

    /// The account of the customer, if the customer is known.
    fn fetch_user_account_for_customer_id(&self, customer_id: &str) -> (r: Result<
        Option<Account>,
        OrderFlowError,
    >)
        requires
            self.book().sound(),
        ensures
            r == Ok::<Option<Account>, OrderFlowError>(
                account_of_key(self.book(), IdentityKind::CustomerId, customer_id@),
            ),
    ;

    /// The account of the wallet, if its address is known.
    fn fetch_user_account_for_pubkey(&self, pubkey: &str) -> (r: Result<
        Option<Account>,
        OrderFlowError,
    >)
        requires
            self.book().sound(),
        ensures
            r == Ok::<Option<Account>, OrderFlowError>(
                account_of_key(self.book(), IdentityKind::WalletAddress, pubkey@),
            ),
    ;
}

impl AccountManagement for OrderFlow {
    open spec fn book(&self) -> Ledger {
        self@
    }

    fn fetch_user_account(&self, account_id: i64) -> (r: Result<Option<Account>, OrderFlowError>) {
        Ok(self.account(account_id))
    }

    fn fetch_user_account_for_order(&self, order_id: &str) -> (r: Result<
        Option<Account>,
        OrderFlowError,
    >) {
        match self.order(order_id) {
            Some(o) => Ok(self.account(o.account_id)),
            None => Ok(None),
        }
    }

    fn fetch_user_account_for_customer_id(&self, customer_id: &str) -> (r: Result<
        Option<Account>,
        OrderFlowError,
    >) {
        match self.store().account_for(IdentityKind::CustomerId, customer_id) {
            Some(a) => Ok(self.account(a)),
            None => Ok(None),
        }
    }

    fn fetch_user_account_for_pubkey(&self, pubkey: &str) -> (r: Result<
        Option<Account>,
        OrderFlowError,
    >) {
        match self.store().account_for(IdentityKind::WalletAddress, pubkey) {
            Some(a) => Ok(self.account(a)),
            None => Ok(None),
        }
    }
}

} // verus!
