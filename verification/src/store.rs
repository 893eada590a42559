//! The store: four tables in memory and the primitive operations on them.
//! Each operation is one step; it either takes effect as a whole or leaves
//! the tables as they were.

use vstd::prelude::*;
use crate::ledger::Ledger;
use crate::outcome::OrderFlowError;
use crate::outcome::InsertOrderResult;
use crate::outcome::InsertPaymentResult;
use crate::ledger::link_position_is_unique;
use crate::ledger::order_position_is_unique;
use crate::ledger::payment_position_is_unique;
use crate::records::Account;
use crate::records::IdentityLink;
use crate::records::LinkView;
use crate::records::Order;
use crate::records::OrderView;
use crate::records::Payment;
use crate::records::PaymentView;
use crate::status::IdentityKind;
use crate::status::OrderStatus;
use crate::status::TransferStatus;
use crate::text::same_text;
use crate::matcher::comes_first;
use crate::matcher::first_claimed;
use crate::matcher::is_claimed_by;
use crate::matcher::leads;
use crate::matcher::precedes;
use crate::matcher::leads_prefix;
use crate::matcher::leader_is_unique;
use crate::matcher::no_leader_means_none_claimed;
use crate::matcher::precedes_is_strict_total;

verus! {

/// What an optional borrowed text holds.
pub open spec fn optional_str(t: Option<&str>) -> Option<Seq<char>> {
    match t {
        Some(s) => Some(s@),
        None => None,
    }
}

pub open spec fn link_views(rows: Seq<IdentityLink>) -> Seq<LinkView> {
    Seq::new(rows.len(), |i: int| rows[i]@)
}

pub open spec fn order_views(rows: Seq<Order>) -> Seq<OrderView> {
    Seq::new(rows.len(), |i: int| rows[i]@)
}

pub open spec fn payment_views(rows: Seq<Payment>) -> Seq<PaymentView> {
    Seq::new(rows.len(), |i: int| rows[i]@)
}

/// The tables.
pub struct Store {
    accounts: Vec<Account>,
    links: Vec<IdentityLink>,
    orders: Vec<Order>,
    payments: Vec<Payment>,
}

impl View for Store {
    type V = Ledger;

    closed spec fn view(&self) -> Ledger {
        Ledger {
            accounts: self.accounts@,
            links: link_views(self.links@),
            orders: order_views(self.orders@),
            payments: payment_views(self.payments@),
        }
    }
}

impl Store {
    /// An empty store.
    pub fn new() -> (r: Store)
        ensures
            r@ == Ledger::empty(),
    {
        let r = Store { accounts: Vec::new(), links: Vec::new(), orders: Vec::new(), payments: Vec::new() };
        assert(r@.links =~= Seq::empty());
        assert(r@.orders =~= Seq::empty());
        assert(r@.payments =~= Seq::empty());
        r
    }

    fn find_link(&self, kind: IdentityKind, key: &str) -> (r: Option<usize>)
        requires
            self@.well_formed(),
        ensures
            match r {
                Some(i) => self@.link_position(kind, key@) == Some(i as int) && self@.holds_link(
                    i as int,
                    kind,
                    key@,
                ),
                None => self@.link_position(kind, key@) is None,
            },
    {
        let mut i: usize = 0;
        while i < self.links.len()
            invariant
                self@.well_formed(),
                i <= self.links.len(),
                forall|k: int| 0 <= k < i ==> !self@.holds_link(k, kind, key@),
            decreases self.links.len() - i,
        {
            if self.links[i].kind == kind && same_text(self.links[i].key.as_str(), key) {
                proof {
                    assert(self@.holds_link(i as int, kind, key@));
                    link_position_is_unique(self@, i as int, kind, key@);
                }
                return Some(i);
            }
            i = i + 1;
        }
        None
    }

    fn find_order(&self, order_id: &str) -> (r: Option<usize>)
        requires
            self@.well_formed(),
        ensures
            match r {
                Some(i) => self@.order_position(order_id@) == Some(i as int) && self@.holds_order(
                    i as int,
                    order_id@,
                ),
                None => self@.order_position(order_id@) is None,
            },
    {
        let mut i: usize = 0;
        while i < self.orders.len()
            invariant
                self@.well_formed(),
                i <= self.orders.len(),
                forall|k: int| 0 <= k < i ==> !self@.holds_order(k, order_id@),
            decreases self.orders.len() - i,
        {
            if same_text(self.orders[i].order_id.as_str(), order_id) {
                proof {
                    assert(self@.holds_order(i as int, order_id@));
                    order_position_is_unique(self@, i as int, order_id@);
                }
                return Some(i);
            }
            i = i + 1;
        }
        None
    }

    fn find_payment(&self, txid: &str) -> (r: Option<usize>)
        requires
            self@.well_formed(),
        ensures
            match r {
                Some(i) => self@.payment_position(txid@) == Some(i as int) && self@.holds_payment(
                    i as int,
                    txid@,
                ),
                None => self@.payment_position(txid@) is None,
            },
    {
        let mut i: usize = 0;
        while i < self.payments.len()
            invariant
                self@.well_formed(),
                i <= self.payments.len(),
                forall|k: int| 0 <= k < i ==> !self@.holds_payment(k, txid@),
            decreases self.payments.len() - i,
        {
            if same_text(self.payments[i].txid.as_str(), txid) {
                proof {
                    assert(self@.holds_payment(i as int, txid@));
                    payment_position_is_unique(self@, i as int, txid@);
                }
                return Some(i);
            }
            i = i + 1;
        }
        None
    }

    /// The account that a key belongs to, if the key is known.
    pub fn account_for(&self, kind: IdentityKind, key: &str) -> (r: Option<i64>)
        requires
            self@.well_formed(),
        ensures
            r == self@.resolve(kind, key@),
    {
        match self.find_link(kind, key) {
            Some(i) => Some(self.links[i].account_id),
            None => None,
        }
    }

    fn account_for_optional(&self, kind: IdentityKind, key: Option<&str>) -> (r: Option<i64>)
        requires
            self@.well_formed(),
        ensures
            r == self@.resolve_optional(kind, optional_str(key)),
    {
        match key {
            Some(k) => self.account_for(kind, k),
            None => None,
        }
    }

    fn attach(&mut self, kind: IdentityKind, key: Option<&str>, account: i64)
        requires
            old(self)@.well_formed(),
            old(self)@.has_account(account),
        ensures
            final(self)@ == old(self)@.attach(kind, optional_str(key), account),
            final(self)@.well_formed(),
    {
        match key {
            Some(k) => {
                if self.find_link(kind, k).is_none() {
                    let ghost before = self@;
                    let link = IdentityLink { kind, key: String::from_str(k), account_id: account };
                    self.links.push(link);
                    proof {
                        assert(self@.links =~= before.links.push(
                            LinkView { kind, key: k@, account_id: account },
                        ));
                        assert forall|i: int, j: int| 0 <= i < j < self@.links.len() implies !((
                        #[trigger] self@.links[i]).kind == (#[trigger] self@.links[j]).kind
                            && self@.links[i].key == self@.links[j].key) by {
                            if j == before.links.len() {
                                assert(!before.holds_link(i, kind, k@));
                            }
                        }
                    }
                }
            },
            None => {},
        }
    }

    /// Finds the account that owns the customer id and the wallet address,
    /// or opens one. Where both are known and belong to different accounts
    /// it fails with `IdentityConflict`. Where one is known, the other is
    /// linked to the same account. Where neither is known, a new account is
    /// opened and both are linked to it.
    pub fn fetch_or_create_account(
        &mut self,
        customer: Option<&str>,
        address: Option<&str>,
        now: i64,
    ) -> (r: Result<i64, OrderFlowError>)
        requires
            old(self)@.well_formed(),
        ensures
            r == old(self)@.resolved_account(optional_str(customer), optional_str(address)),
            final(self)@ == old(self)@.after_resolving(
                optional_str(customer),
                optional_str(address),
                now,
            ),
            final(self)@.well_formed(),
            r matches Ok(a) ==> final(self)@.has_account(a),
    {
        let c = self.account_for_optional(IdentityKind::CustomerId, customer);
        let w = self.account_for_optional(IdentityKind::WalletAddress, address);
        let ghost before = self@;
        let target: i64 = match (c, w) {
            (Some(a), Some(b)) => {
                if a != b {
                    return Err(OrderFlowError::IdentityConflict);
                }
                a
            },
            (Some(a), None) => a,
            (None, Some(b)) => b,
            (None, None) => {
                let rows: u64 = self.accounts.len() as u64;
                if rows >= 9223372036854775807u64 {
                    return Err(OrderFlowError::StoreFull);
                }
                let id: i64 = (rows + 1) as i64;
                self.accounts.push(Account::opened(id, now));
                assert(self@ == before.open_account(now));
                id
            },
        };
        proof {
            if c is Some {
                let i = before.link_position(IdentityKind::CustomerId, customer.unwrap()@).unwrap();
                assert(before.has_account(before.links[i].account_id));
            }
            if w is Some {
                let i = before.link_position(IdentityKind::WalletAddress, address.unwrap()@).unwrap();
                assert(before.has_account(before.links[i].account_id));
            }
        }
        self.attach(IdentityKind::CustomerId, customer, target);
        self.attach(IdentityKind::WalletAddress, address, target);
        Ok(target)
    }

    /// Stores an order under its id. Where the id is known already the
    /// table stays as it is and the old row's number comes back.
    pub fn insert_order_idempotent(&mut self, order: Order) -> (r: Result<
        InsertOrderResult,
        OrderFlowError,
    >)
        requires
            old(self)@.well_formed(),
        ensures
            r == old(self)@.order_insertion(order@),
            final(self)@ == old(self)@.after_order_insertion(order@),
            final(self)@.well_formed(),
    {
        match self.find_order(order.order_id.as_str()) {
            Some(i) => Ok(InsertOrderResult::AlreadyExists((i as u64 + 1) as i64)),
            None => {
                let rows: u64 = self.orders.len() as u64;
                if rows >= 9223372036854775807u64 {
                    return Err(OrderFlowError::StoreFull);
                }
                let ghost before = self@;
                let ghost row = order@;
                self.orders.push(order);
                proof {
                    assert(self@.orders =~= before.orders.push(row));
                    assert forall|i: int, j: int| 0 <= i < j < self@.orders.len() implies (
                    #[trigger] self@.orders[i]).order_id != (#[trigger] self@.orders[j]).order_id by {
                        if j == before.orders.len() {
                            assert(!before.holds_order(i, row.order_id));
                        }
                    }
                }
                Ok(InsertOrderResult::Inserted((rows + 1) as i64))
            },
        }
    }

    /// Stores a payment under its transaction id. Where the id is known
    /// already the table stays as it is.
    pub fn insert_payment_idempotent(&mut self, payment: Payment) -> (r: Result<
        InsertPaymentResult,
        OrderFlowError,
    >)
        requires
            old(self)@.well_formed(),
        ensures
            final(self)@ == old(self)@.after_payment_insertion(payment@),
            final(self)@.well_formed(),
            match r {
                Ok(InsertPaymentResult::Inserted(t)) => t@ == payment@.txid && old(
                    self,
                )@.payment_insertion(payment@) == Ok::<bool, OrderFlowError>(true),
                Ok(InsertPaymentResult::AlreadyExists(t)) => t@ == payment@.txid && old(
                    self,
                )@.payment_insertion(payment@) == Ok::<bool, OrderFlowError>(false),
                Err(e) => old(self)@.payment_insertion(payment@) == Err::<bool, OrderFlowError>(e),
            },
    {
        let txid = payment.txid.clone();
        match self.find_payment(txid.as_str()) {
            Some(_) => Ok(InsertPaymentResult::AlreadyExists(txid)),
            None => {
                let rows: u64 = self.payments.len() as u64;
                if rows >= 9223372036854775807u64 {
                    return Err(OrderFlowError::StoreFull);
                }
                let ghost before = self@;
                let ghost row = payment@;
                self.payments.push(payment);
                proof {
                    assert(self@.payments =~= before.payments.push(row));
                    assert forall|i: int, j: int| 0 <= i < j < self@.payments.len() implies (
                    #[trigger] self@.payments[i]).txid != (#[trigger] self@.payments[j]).txid by {
                        if j == before.payments.len() {
                            assert(!before.holds_payment(i, row.txid));
                        }
                    }
                }
                Ok(InsertPaymentResult::Inserted(txid))
            },
        }
    }

    /// Moves a payment to a status. It fails with `PaymentNotFound` where
    /// the transaction id is unknown and with `InvalidTransition` where the
    /// payment is confirmed or cancelled already. It gives the payment's
    /// account where the status changed, and nothing where it did not.
    pub fn update_payment_status(&mut self, txid: &str, status: TransferStatus) -> (r: Result<
        Option<i64>,
        OrderFlowError,
    >)
        requires
            old(self)@.well_formed(),
        ensures
            r == old(self)@.payment_update(txid@, status),
            final(self)@ == old(self)@.after_payment_update(txid@, status),
            final(self)@.well_formed(),
    {
        match self.find_payment(txid) {
            None => Err(OrderFlowError::PaymentNotFound),
            Some(i) => {
                if self.payments[i].status.terminal() {
                    Err(OrderFlowError::InvalidTransition)
                } else if self.payments[i].status == status {
                    Ok(None)
                } else {
                    let ghost before = self@;
                    self.payments[i].status = status;
                    proof {
                        assert(self@.payments =~= before.payments.update(
                            i as int,
                            PaymentView { status, ..before.payments[i as int] },
                        ));
                    }
                    Ok(Some(self.payments[i].account_id))
                }
            },
        }
    }

    /// Moves an order along an edge of its lifecycle. It fails with
    /// `OrderNotFound` where the id is unknown and with `InvalidTransition`
    /// where the lifecycle has no such edge.
    pub fn set_order_status(&mut self, order_id: &str, status: OrderStatus, now: i64) -> (r: Result<
        (),
        OrderFlowError,
    >)
        requires
            old(self)@.well_formed(),
        ensures
            r == old(self)@.order_update(order_id@, status),
            final(self)@ == old(self)@.after_order_update(order_id@, status, now),
            final(self)@.well_formed(),
    {
        match self.find_order(order_id) {
            None => Err(OrderFlowError::OrderNotFound),
            Some(i) => {
                if self.orders[i].status.allows(status) {
                    let ghost before = self@;
                    self.orders[i].status = status;
                    self.orders[i].updated_at = now;
                    proof {
                        assert(self@.orders =~= before.orders.update(
                            i as int,
                            OrderView { status, updated_at: now, ..before.orders[i as int] },
                        ));
                    }
                    Ok(())
                } else {
                    Err(OrderFlowError::InvalidTransition)
                }
            },
        }
    }

    /// Hands an open order to another account.
    pub fn reassign_order(&mut self, order_id: &str, account: i64) -> (r: Result<(), OrderFlowError>)
        requires
            old(self)@.well_formed(),
        ensures
            r == old(self)@.reassignment(order_id@, account),
            final(self)@ == old(self)@.after_reassignment(order_id@, account),
            final(self)@.well_formed(),
    {
        match self.find_order(order_id) {
            None => Err(OrderFlowError::OrderNotFound),
            Some(i) => {
                if account < 1 || account as u64 > self.accounts.len() as u64 {
                    Err(OrderFlowError::AccountNotFound)
                } else if self.orders[i].status.terminal() {
                    Err(OrderFlowError::InvalidTransition)
                } else {
                    let ghost before = self@;
                    self.orders[i].account_id = account;
                    proof {
                        assert(self@.orders =~= before.orders.update(
                            i as int,
                            OrderView { account_id: account, ..before.orders[i as int] },
                        ));
                    }
                    Ok(())
                }
            },
        }
    }

    /// Puts a paid order back among the claimed ones. This is the one step
    /// that leaves a terminal status, and it is refused with
    /// `OrderModificationForbidden` once the goods have been delivered.
    pub fn reopen_order(&mut self, order_id: &str, now: i64) -> (r: Result<(), OrderFlowError>)
        requires
            old(self)@.well_formed(),
        ensures
            r == old(self)@.reopening(order_id@),
            final(self)@ == old(self)@.after_reopening(order_id@, now),
            final(self)@.well_formed(),
    {
        match self.find_order(order_id) {
            None => Err(OrderFlowError::OrderNotFound),
            Some(i) => {
                if self.orders[i].status != OrderStatus::Paid {
                    Err(OrderFlowError::InvalidTransition)
                } else if self.orders[i].fulfilled {
                    Err(OrderFlowError::OrderModificationForbidden)
                } else {
                    let ghost before = self@;
                    self.orders[i].status = OrderStatus::Claimed;
                    self.orders[i].updated_at = now;
                    proof {
                        assert(self@.orders =~= before.orders.update(
                            i as int,
                            OrderView {
                                status: OrderStatus::Claimed,
                                updated_at: now,
                                ..before.orders[i as int]
                            },
                        ));
                    }
                    Ok(())
                }
            },
        }
    }

    /// Marks a paid order as delivered.
    pub fn mark_fulfilled(&mut self, order_id: &str) -> (r: Result<(), OrderFlowError>)
        requires
            old(self)@.well_formed(),
        ensures
            r == old(self)@.fulfilment(order_id@),
            final(self)@ == old(self)@.after_fulfilment(order_id@),
            final(self)@.well_formed(),
    {
        match self.find_order(order_id) {
            None => Err(OrderFlowError::OrderNotFound),
            Some(i) => {
                if self.orders[i].status != OrderStatus::Paid {
                    Err(OrderFlowError::InvalidTransition)
                } else {
                    let ghost before = self@;
                    self.orders[i].fulfilled = true;
                    proof {
                        assert(self@.orders =~= before.orders.update(
                            i as int,
                            OrderView { fulfilled: true, ..before.orders[i as int] },
                        ));
                    }
                    Ok(())
                }
            },
        }
    }

    /// Applies signed changes to the sums of an account. It fails, and
    /// changes nothing, where the account is unknown, where a sum would
    /// fall below zero or the debits exceed the credits, or where a sum
    /// would no longer fit.
    pub fn adjust_account(
        &mut self,
        account_id: i64,
        credits: i128,
        debits: i128,
        pending: i128,
        now: i64,
    ) -> (r: Result<(), OrderFlowError>)
        requires
            old(self)@.well_formed(),
        ensures
            r is Ok <==> old(self)@.adjustment(
                account_id,
                credits as int,
                debits as int,
                pending as int,
                now,
            ) is Ok,
            r matches Err(e) ==> old(self)@.adjustment(
                account_id,
                credits as int,
                debits as int,
                pending as int,
                now,
            )
                == Err::<Account, OrderFlowError>(e),
            final(self)@ == old(self)@.after_adjustment(
                account_id,
                credits as int,
                debits as int,
                pending as int,
                now,
            ),
            final(self)@.well_formed(),
    {
        if account_id < 1 || account_id as u64 > self.accounts.len() as u64 {
            return Err(OrderFlowError::AccountNotFound);
        }
        let i: usize = (account_id - 1) as usize;
        match self.accounts[i].adjust(credits, debits, pending, now) {
            Ok(a) => {
                self.accounts.set(i, a);
                Ok(())
            },
            Err(e) => Err(e),
        }
    }

    /// The account with this id.
    pub fn account(&self, account_id: i64) -> (r: Option<Account>)
        ensures
            r == if self@.has_account(account_id) {
                Some(self@.account(account_id))
            } else {
                None
            },
    {
        if account_id < 1 || account_id as u64 > self.accounts.len() as u64 {
            None
        } else {
            Some(self.accounts[(account_id - 1) as usize])
        }
    }

    /// A copy of the order with this id.
    pub fn order(&self, order_id: &str) -> (r: Option<Order>)
        requires
            self@.well_formed(),
        ensures
            match self@.order_position(order_id@) {
                Some(i) => r matches Some(o) && o@ == self@.orders[i],
                None => r is None,
            },
    {
        match self.find_order(order_id) {
            Some(i) => Some(self.orders[i].copy()),
            None => None,
        }
    }

    /// A copy of the payment with this transaction id.
    pub fn payment(&self, txid: &str) -> (r: Option<Payment>)
        requires
            self@.well_formed(),
        ensures
            match self@.payment_position(txid@) {
                Some(i) => r matches Some(p) && p@ == self@.payments[i],
                None => r is None,
            },
    {
        match self.find_payment(txid) {
            Some(i) => Some(self.payments[i].copy()),
            None => None,
        }
    }

    /// How many orders the store holds.
    pub fn order_count(&self) -> (r: usize)
        ensures
            r == self@.orders.len(),
    {
        self.orders.len()
    }

    /// How many payments the store holds.
    pub fn payment_count(&self) -> (r: usize)
        ensures
            r == self@.payments.len(),
    {
        self.payments.len()
    }

    /// How many accounts the store holds.
    pub fn account_count(&self) -> (r: usize)
        ensures
            r == self@.accounts.len(),
    {
        self.accounts.len()
    }

    /// A copy of the order in a row.
    pub fn order_at(&self, row: usize) -> (r: Order)
        requires
            row < self@.orders.len(),
        ensures
            r@ == self@.orders[row as int],
    {
        self.orders[row].copy()
    }

    /// A copy of the payment in a row.
    pub fn payment_at(&self, row: usize) -> (r: Payment)
        requires
            row < self@.payments.len(),
        ensures
            r@ == self@.payments[row as int],
    {
        self.payments[row].copy()
    }
    /// The row of the claimed order of the account that is paid next: the
    /// oldest, and of several of one age the one whose id comes first.
    pub fn first_claimed(&self, account: i64) -> (r: Option<usize>)
        requires
            self@.well_formed(),
        ensures
            match r {
                Some(i) => first_claimed(self@.orders, account) == Some(i as int) && leads(
                    self@.orders,
                    account,
                    i as int,
                ),
                None => first_claimed(self@.orders, account) is None,
            },
    {
        let mut best: Option<usize> = None;
        let mut i: usize = 0;
        while i < self.orders.len()
            invariant
                self@.well_formed(),
                i <= self.orders.len(),
                match best {
                    Some(b) => leads_prefix(self@.orders, account, i as int, b as int),
                    None => forall|j: int|
                        0 <= j < i ==> !is_claimed_by(#[trigger] self@.orders[j], account),
                },
            decreases self.orders.len() - i,
        {
            if self.orders[i].status == OrderStatus::Claimed && self.orders[i].account_id
                == account {
                match best {
                    None => {
                        best = Some(i);
                    },
                    Some(b) => {
                        let ghost here = self@.orders[i as int];
                        let ghost there = self@.orders[b as int];
                        proof {
                            assert(here.order_id != there.order_id);
                            precedes_is_strict_total(here, there, here);
                        }
                        if comes_first(&self.orders[i], &self.orders[b]) {
                            proof {
                                assert forall|j: int|
                                    0 <= j < i + 1 && j != i && is_claimed_by(
                                        #[trigger] self@.orders[j],
                                        account,
                                    ) implies precedes(here, self@.orders[j]) by {
                                    if j != b {
                                        precedes_is_strict_total(here, there, self@.orders[j]);
                                    }
                                }
                            }
                            best = Some(i);
                        }
                    },
                }
            }
            i = i + 1;
        }
        proof {
            match best {
                Some(b) => {
                    assert(leads(self@.orders, account, b as int));
                    leader_is_unique(self@.orders, account, b as int);
                },
                None => {
                    no_leader_means_none_claimed(self@, account);
                },
            }
        }
        best
    }
    /// Whether an order with this id is stored.
    pub fn has_order(&self, order_id: &str) -> (r: bool)
        requires
            self@.well_formed(),
        ensures
            r == self@.order_position(order_id@) is Some,
    {
        self.find_order(order_id).is_some()
    }

    /// Whether a payment with this transaction id is stored.
    pub fn has_payment(&self, txid: &str) -> (r: bool)
        requires
            self@.well_formed(),
        ensures
            r == self@.payment_position(txid@) is Some,
    {
        self.find_payment(txid).is_some()
    }

    /// The row of the order with this id.
    pub fn order_row(&self, order_id: &str) -> (r: Option<usize>)
        requires
            self@.well_formed(),
        ensures
            match r {
                Some(i) => self@.order_position(order_id@) == Some(i as int) && self@.holds_order(
                    i as int,
                    order_id@,
                ),
                None => self@.order_position(order_id@) is None,
            },
    {
        self.find_order(order_id)
    }

    /// The row of the payment with this transaction id.
    pub fn payment_row(&self, txid: &str) -> (r: Option<usize>)
        requires
            self@.well_formed(),
        ensures
            match r {
                Some(i) => self@.payment_position(txid@) == Some(i as int)
                    && self@.holds_payment(i as int, txid@),
                None => self@.payment_position(txid@) is None,
            },
    {
        self.find_payment(txid)
    }
    /// A copy of the whole store.
    pub fn copy(&self) -> (r: Store)
        ensures
            r@ == self@,
    {
        let mut accounts: Vec<Account> = Vec::new();
        let mut i: usize = 0;
        while i < self.accounts.len()
            invariant
                i <= self.accounts.len(),
                accounts@ == self.accounts@.take(i as int),
            decreases self.accounts.len() - i,
        {
            accounts.push(self.accounts[i]);
            assert(accounts@ =~= self.accounts@.take(i + 1));
            i = i + 1;
        }
        assert(accounts@ =~= self.accounts@);
        let mut links: Vec<IdentityLink> = Vec::new();
        let mut i: usize = 0;
        while i < self.links.len()
            invariant
                i <= self.links.len(),
                link_views(links@) == link_views(self.links@).take(i as int),
            decreases self.links.len() - i,
        {
            let ghost before_push = link_views(links@);
            links.push(
                IdentityLink {
                    kind: self.links[i].kind,
                    key: self.links[i].key.clone(),
                    account_id: self.links[i].account_id,
                },
            );
            proof {
                let full = link_views(self.links@);
                assert(before_push.len() == i);
                assert forall|j: int| 0 <= j < i + 1 implies link_views(links@)[j] == full[j] by {
                    if j < i {
                        assert(link_views(links@)[j] == before_push[j]);
                        assert(before_push[j] == full.take(i as int)[j]);
                    }
                }
                assert(link_views(links@) =~= full.take(i + 1));
            }
            i = i + 1;
        }
        assert(link_views(links@) =~= link_views(self.links@));
        let mut orders: Vec<Order> = Vec::new();
        let mut i: usize = 0;
        while i < self.orders.len()
            invariant
                i <= self.orders.len(),
                order_views(orders@) == order_views(self.orders@).take(i as int),
            decreases self.orders.len() - i,
        {
            let ghost before_push = order_views(orders@);
            orders.push(self.orders[i].copy());
            proof {
                let full = order_views(self.orders@);
                assert(before_push.len() == i);
                assert forall|j: int| 0 <= j < i + 1 implies order_views(orders@)[j] == full[j] by {
                    if j < i {
                        assert(order_views(orders@)[j] == before_push[j]);
                        assert(before_push[j] == full.take(i as int)[j]);
                    }
                }
                assert(order_views(orders@) =~= full.take(i + 1));
            }
            i = i + 1;
        }
        assert(order_views(orders@) =~= order_views(self.orders@));
        let mut payments: Vec<Payment> = Vec::new();
        let mut i: usize = 0;
        while i < self.payments.len()
            invariant
                i <= self.payments.len(),
                payment_views(payments@) == payment_views(self.payments@).take(i as int),
            decreases self.payments.len() - i,
        {
            let ghost before_push = payment_views(payments@);
            payments.push(self.payments[i].copy());
            proof {
                let full = payment_views(self.payments@);
                assert(before_push.len() == i);
                assert forall|j: int| 0 <= j < i + 1 implies payment_views(payments@)[j] == full[j] by {
                    if j < i {
                        assert(payment_views(payments@)[j] == before_push[j]);
                        assert(before_push[j] == full.take(i as int)[j]);
                    }
                }
                assert(payment_views(payments@) =~= full.take(i + 1));
            }
            i = i + 1;
        }
        assert(payment_views(payments@) =~= payment_views(self.payments@));
        Store { accounts, links, orders, payments }
    }
}

} // verus!
