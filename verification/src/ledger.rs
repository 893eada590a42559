//! The state of the gateway as a mathematical value: four tables, what it
//! means for them to be in order, and how each primitive step changes them.

use vstd::prelude::*;
use crate::records::Account;
use crate::records::LinkView;
use crate::records::OrderView;
use crate::records::PaymentView;
use crate::status::IdentityKind;
use crate::status::OrderStatus;
use crate::status::TransferStatus;
use crate::outcome::OrderFlowError;
use crate::outcome::Resolution;
use crate::outcome::InsertOrderResult;
use crate::totals::paid_total;
use crate::totals::open_total;
use crate::totals::confirmed_total;

verus! {

/// The four tables.
pub struct Ledger {
    pub accounts: Seq<Account>,
    pub links: Seq<LinkView>,
    pub orders: Seq<OrderView>,
    pub payments: Seq<PaymentView>,
}

impl Ledger {
    pub open spec fn empty() -> Ledger {
        Ledger { accounts: Seq::empty(), links: Seq::empty(), orders: Seq::empty(), payments: Seq::empty() }
    }

    pub open spec fn has_account(self, id: i64) -> bool {
        1 <= id <= self.accounts.len()
    }

    /// The account with this id.
    pub open spec fn account(self, id: i64) -> Account
        recommends
            self.has_account(id),
    {
        self.accounts[id - 1]
    }

    pub open spec fn holds_link(self, i: int, kind: IdentityKind, key: Seq<char>) -> bool {
        0 <= i < self.links.len() && self.links[i].kind == kind && self.links[i].key == key
    }

    pub open spec fn holds_order(self, i: int, order_id: Seq<char>) -> bool {
        0 <= i < self.orders.len() && self.orders[i].order_id == order_id
    }

    pub open spec fn holds_payment(self, i: int, txid: Seq<char>) -> bool {
        0 <= i < self.payments.len() && self.payments[i].txid == txid
    }

    /// Where the link for this key stands, if there is one.
    pub open spec fn link_position(self, kind: IdentityKind, key: Seq<char>) -> Option<int> {
        if exists|i: int| self.holds_link(i, kind, key) {
            Some(choose|i: int| self.holds_link(i, kind, key))
        } else {
            None
        }
    }

    /// Where the order with this id stands, if there is one.
    pub open spec fn order_position(self, order_id: Seq<char>) -> Option<int> {
        if exists|i: int| self.holds_order(i, order_id) {
            Some(choose|i: int| self.holds_order(i, order_id))
        } else {
            None
        }
    }

    /// Where the payment with this transaction id stands, if there is one.
    pub open spec fn payment_position(self, txid: Seq<char>) -> Option<int> {
        if exists|i: int| self.holds_payment(i, txid) {
            Some(choose|i: int| self.holds_payment(i, txid))
        } else {
            None
        }
    }

    /// The account that this key belongs to, if it is known.
    pub open spec fn resolve(self, kind: IdentityKind, key: Seq<char>) -> Option<i64> {
        match self.link_position(kind, key) {
            Some(i) => Some(self.links[i].account_id),
            None => None,
        }
    }

    pub open spec fn resolve_optional(self, kind: IdentityKind, key: Option<Seq<char>>) -> Option<
        i64,
    > {
        match key {
            Some(k) => self.resolve(kind, k),
            None => None,
        }
    }

    /// The tables are in order: ids count up from one, and no key, order id
    /// or transaction id occurs twice.
    pub open spec fn well_formed(self) -> bool {
        &&& self.accounts.len() <= i64::MAX
        &&& self.orders.len() <= i64::MAX
        &&& self.payments.len() <= i64::MAX
        &&& forall|i: int| 0 <= i < self.accounts.len() ==> (#[trigger] self.accounts[i]).id == i + 1
        &&& forall|i: int|
            0 <= i < self.links.len() ==> self.has_account((#[trigger] self.links[i]).account_id)
        &&& forall|i: int, j: int|
            0 <= i < j < self.links.len() ==> !((#[trigger] self.links[i]).kind == (
            #[trigger] self.links[j]).kind && self.links[i].key == self.links[j].key)
        &&& forall|i: int, j: int|
            0 <= i < j < self.orders.len() ==> (#[trigger] self.orders[i]).order_id != (
            #[trigger] self.orders[j]).order_id
        &&& forall|i: int, j: int|
            0 <= i < j < self.payments.len() ==> (#[trigger] self.payments[i]).txid != (
            #[trigger] self.payments[j]).txid
    }

    /// Every order and payment belongs to an account, and a payment to the
    /// account of its sender's address.
    pub open spec fn consistent(self) -> bool {
        &&& forall|i: int|
            0 <= i < self.orders.len() ==> self.has_account((#[trigger] self.orders[i]).account_id)
        &&& forall|i: int|
            0 <= i < self.payments.len() ==> self.has_account(
                (#[trigger] self.payments[i]).account_id,
            )
        &&& forall|i: int|
            0 <= i < self.payments.len() ==> self.resolve(
                IdentityKind::WalletAddress,
                (#[trigger] self.payments[i]).sender,
            ) == Some(self.payments[i].account_id)
    }

    /// The sums on one account are those of its rows, and it is solvent.
    pub open spec fn account_balanced(self, id: i64) -> bool {
        let a = self.account(id);
        &&& a.debits == paid_total(self.orders, id)
        &&& a.pending == open_total(self.orders, id)
        &&& a.credits == confirmed_total(self.payments, id)
        &&& a.credits >= a.debits
    }

    /// The sums on every account are those of its rows.
    pub open spec fn balanced(self) -> bool {
        forall|id: i64| self.has_account(id) ==> #[trigger] self.account_balanced(id)
    }

    /// Everything that holds of a state that the engine has produced.
    pub open spec fn sound(self) -> bool {
        self.well_formed() && self.consistent() && self.balanced()
    }

    // ---------------------------------------------------------------
    // Primitive changes
    // ---------------------------------------------------------------
    pub open spec fn put_account(self, id: i64, a: Account) -> Ledger {
        Ledger { accounts: self.accounts.update(id - 1, a), ..self }
    }

    pub open spec fn put_order(self, i: int, o: OrderView) -> Ledger {
        Ledger { orders: self.orders.update(i, o), ..self }
    }

    pub open spec fn put_payment(self, i: int, p: PaymentView) -> Ledger {
        Ledger { payments: self.payments.update(i, p), ..self }
    }

    pub open spec fn add_order(self, o: OrderView) -> Ledger {
        Ledger { orders: self.orders.push(o), ..self }
    }

    pub open spec fn add_payment(self, p: PaymentView) -> Ledger {
        Ledger { payments: self.payments.push(p), ..self }
    }

    /// The state with one more account, opened at `now`.
    pub open spec fn open_account(self, now: i64) -> Ledger {
        Ledger {
            accounts: self.accounts.push(
                Account {
                    id: (self.accounts.len() + 1) as i64,
                    credits: 0,
                    debits: 0,
                    pending: 0,
                    created_at: now,
                    updated_at: now,
                },
            ),
            ..self
        }
    }

    /// The state with `key` linked to `account`, unless no key is given or
    /// the key is known already.
    pub open spec fn attach(self, kind: IdentityKind, key: Option<Seq<char>>, account: i64) -> Ledger {
        match key {
            Some(k) => if self.resolve(kind, k) is None {
                Ledger { links: self.links.push(LinkView { kind, key: k, account_id: account }), ..self }
            } else {
                self
            },
            None => self,
        }
    }

    /// What looking up a customer id and a wallet address together gives.
    pub open spec fn resolution(self, customer: Option<Seq<char>>, address: Option<Seq<char>>) -> Resolution {
        let c = self.resolve_optional(IdentityKind::CustomerId, customer);
        let w = self.resolve_optional(IdentityKind::WalletAddress, address);
        match (c, w) {
            (Some(a), Some(b)) => if a == b {
                Resolution::Known(a)
            } else {
                Resolution::Conflict
            },
            (Some(a), None) => Resolution::Known(a),
            (None, Some(b)) => Resolution::Known(b),
            (None, None) => Resolution::Fresh,
        }
    }

    /// The account that the two identities resolve to, where one is found or
    /// can be made.
    pub open spec fn resolved_account(
        self,
        customer: Option<Seq<char>>,
        address: Option<Seq<char>>,
    ) -> Result<i64, OrderFlowError> {
        match self.resolution(customer, address) {
            Resolution::Conflict => Err(OrderFlowError::IdentityConflict),
            Resolution::Known(a) => Ok(a),
            Resolution::Fresh => if self.accounts.len() >= i64::MAX {
                Err(OrderFlowError::StoreFull)
            } else {
                Ok((self.accounts.len() + 1) as i64)
            },
        }
    }

    /// What inserting an order gives: the number of the row that holds its
    /// id, new or old.
    pub open spec fn order_insertion(self, o: OrderView) -> Result<InsertOrderResult, OrderFlowError> {
        match self.order_position(o.order_id) {
            Some(i) => Ok(InsertOrderResult::AlreadyExists((i + 1) as i64)),
            None => if self.orders.len() >= i64::MAX {
                Err(OrderFlowError::StoreFull)
            } else {
                Ok(InsertOrderResult::Inserted((self.orders.len() + 1) as i64))
            },
        }
    }

    /// The state after inserting an order: one more row where the id was new
    /// and the table had room.
    pub open spec fn after_order_insertion(self, o: OrderView) -> Ledger {
        match self.order_insertion(o) {
            Ok(InsertOrderResult::Inserted(_)) => self.add_order(o),
            _ => self,
        }
    }

    /// Whether inserting a payment adds a row (`true`), finds its
    /// transaction id in the table already (`false`), or finds the table
    /// full.
    pub open spec fn payment_insertion(self, p: PaymentView) -> Result<bool, OrderFlowError> {
        if self.payment_position(p.txid) is Some {
            Ok(false)
        } else if self.payments.len() >= i64::MAX {
            Err(OrderFlowError::StoreFull)
        } else {
            Ok(true)
        }
    }

    /// The state after inserting a payment: one more row where the
    /// transaction id was new and the table had room.
    pub open spec fn after_payment_insertion(self, p: PaymentView) -> Ledger {
        if self.payment_insertion(p) == Ok::<bool, OrderFlowError>(true) {
            self.add_payment(p)
        } else {
            self
        }
    }

    /// Whether a paid order can be put back among the claimed ones: it
    /// exists, it is paid, and its goods have not been delivered.
    pub open spec fn reopening(self, order_id: Seq<char>) -> Result<(), OrderFlowError> {
        match self.order_position(order_id) {
            None => Err(OrderFlowError::OrderNotFound),
            Some(i) => if !(self.orders[i].status is Paid) {
                Err(OrderFlowError::InvalidTransition)
            } else if self.orders[i].fulfilled {
                Err(OrderFlowError::OrderModificationForbidden)
            } else {
                Ok(())
            },
        }
    }

    pub open spec fn after_reopening(self, order_id: Seq<char>, now: i64) -> Ledger {
        match self.reopening(order_id) {
            Ok(_) => {
                let i = self.order_position(order_id).unwrap();
                self.put_order(
                    i,
                    OrderView { status: OrderStatus::Claimed, updated_at: now, ..self.orders[i] },
                )
            },
            Err(_) => self,
        }
    }

    /// Whether an order can be marked as delivered: it exists and is paid.
    pub open spec fn fulfilment(self, order_id: Seq<char>) -> Result<(), OrderFlowError> {
        match self.order_position(order_id) {
            None => Err(OrderFlowError::OrderNotFound),
            Some(i) => if self.orders[i].status is Paid {
                Ok(())
            } else {
                Err(OrderFlowError::InvalidTransition)
            },
        }
    }

    pub open spec fn after_fulfilment(self, order_id: Seq<char>) -> Ledger {
        match self.fulfilment(order_id) {
            Ok(_) => {
                let i = self.order_position(order_id).unwrap();
                self.put_order(i, OrderView { fulfilled: true, ..self.orders[i] })
            },
            Err(_) => self,
        }
    }

    /// What a change of a payment's status gives: the payment's account
    /// where the status changed, nothing where it was that status already.
    pub open spec fn payment_update(self, txid: Seq<char>, status: TransferStatus) -> Result<
        Option<i64>,
        OrderFlowError,
    > {
        match self.payment_position(txid) {
            None => Err(OrderFlowError::PaymentNotFound),
            Some(i) => if self.payments[i].status.is_terminal() {
                Err(OrderFlowError::InvalidTransition)
            } else if self.payments[i].status == status {
                Ok(None)
            } else {
                Ok(Some(self.payments[i].account_id))
            },
        }
    }

    pub open spec fn after_payment_update(self, txid: Seq<char>, status: TransferStatus) -> Ledger {
        match self.payment_update(txid, status) {
            Ok(Some(_)) => {
                let i = self.payment_position(txid).unwrap();
                self.put_payment(i, PaymentView { status, ..self.payments[i] })
            },
            _ => self,
        }
    }

    /// Whether an order can be moved to a status.
    pub open spec fn order_update(self, order_id: Seq<char>, status: OrderStatus) -> Result<
        (),
        OrderFlowError,
    > {
        match self.order_position(order_id) {
            None => Err(OrderFlowError::OrderNotFound),
            Some(i) => if self.orders[i].status.can_become(status) {
                Ok(())
            } else {
                Err(OrderFlowError::InvalidTransition)
            },
        }
    }

    pub open spec fn after_order_update(self, order_id: Seq<char>, status: OrderStatus, now: i64) -> Ledger {
        match self.order_update(order_id, status) {
            Ok(_) => {
                let i = self.order_position(order_id).unwrap();
                self.put_order(i, OrderView { status, updated_at: now, ..self.orders[i] })
            },
            Err(_) => self,
        }
    }

    /// The account after signed changes to its sums, or why they cannot be
    /// made.
    pub open spec fn adjustment(
        self,
        id: i64,
        credits: int,
        debits: int,
        pending: int,
        now: i64,
    ) -> Result<Account, OrderFlowError> {
        if !self.has_account(id) {
            Err(OrderFlowError::AccountNotFound)
        } else {
            self.account(id).adjusted(credits, debits, pending, now)
        }
    }

    pub open spec fn after_adjustment(
        self,
        id: i64,
        credits: int,
        debits: int,
        pending: int,
        now: i64,
    ) -> Ledger {
        match self.adjustment(id, credits, debits, pending, now) {
            Ok(a) => self.put_account(id, a),
            Err(_) => self,
        }
    }

    /// The state after an order has been handed to another account.
    pub open spec fn after_reassignment(self, order_id: Seq<char>, account: i64) -> Ledger {
        match self.order_position(order_id) {
            Some(i) => if self.has_account(account) && !self.orders[i].status.is_terminal() {
                self.put_order(i, OrderView { account_id: account, ..self.orders[i] })
            } else {
                self
            },
            None => self,
        }
    }

    /// Whether an order can be handed to another account: it exists, it is
    /// not in a terminal status, and so does the account.
    pub open spec fn reassignment(self, order_id: Seq<char>, account: i64) -> Result<(), OrderFlowError> {
        match self.order_position(order_id) {
            None => Err(OrderFlowError::OrderNotFound),
            Some(i) => if !self.has_account(account) {
                Err(OrderFlowError::AccountNotFound)
            } else if self.orders[i].status.is_terminal() {
                Err(OrderFlowError::InvalidTransition)
            } else {
                Ok(())
            },
        }
    }

    /// The state after the two identities have been resolved: a new account
    /// where neither was known, and a link for each that was missing.
    pub open spec fn after_resolving(
        self,
        customer: Option<Seq<char>>,
        address: Option<Seq<char>>,
        now: i64,
    ) -> Ledger {
        match self.resolved_account(customer, address) {
            Err(_) => self,
            Ok(a) => {
                let base = if self.resolution(customer, address) is Fresh {
                    self.open_account(now)
                } else {
                    self
                };
                base.attach(IdentityKind::CustomerId, customer, a).attach(
                    IdentityKind::WalletAddress,
                    address,
                    a,
                )
            },
        }
    }
}

/// In a well-formed state a key stands in one place only.
pub proof fn link_position_is_unique(s: Ledger, i: int, kind: IdentityKind, key: Seq<char>)
    requires
        s.well_formed(),
        s.holds_link(i, kind, key),
    ensures
        s.link_position(kind, key) == Some(i),
        s.resolve(kind, key) == Some(s.links[i].account_id),
{
    let j = choose|j: int| s.holds_link(j, kind, key);
    if i < j {
        assert(!(s.links[i].kind == s.links[j].kind && s.links[i].key == s.links[j].key));
    } else if j < i {
        assert(!(s.links[j].kind == s.links[i].kind && s.links[j].key == s.links[i].key));
    }
}

/// In a well-formed state an order id stands in one place only.
pub proof fn order_position_is_unique(s: Ledger, i: int, order_id: Seq<char>)
    requires
        s.well_formed(),
        s.holds_order(i, order_id),
    ensures
        s.order_position(order_id) == Some(i),
{
    let j = choose|j: int| s.holds_order(j, order_id);
    if i < j {
        assert(s.orders[i].order_id != s.orders[j].order_id);
    } else if j < i {
        assert(s.orders[j].order_id != s.orders[i].order_id);
    }
}

/// In a well-formed state a transaction id stands in one place only.
pub proof fn payment_position_is_unique(s: Ledger, i: int, txid: Seq<char>)
    requires
        s.well_formed(),
        s.holds_payment(i, txid),
    ensures
        s.payment_position(txid) == Some(i),
{
    let j = choose|j: int| s.holds_payment(j, txid);
    if i < j {
        assert(s.payments[i].txid != s.payments[j].txid);
    } else if j < i {
        assert(s.payments[j].txid != s.payments[i].txid);
    }
}

/// Each key resolves to exactly one account: the one of its link.
pub proof fn each_key_has_one_account(s: Ledger, i: int)
    requires
        s.well_formed(),
        0 <= i < s.links.len(),
    ensures
        s.resolve(s.links[i].kind, s.links[i].key) == Some(s.links[i].account_id),
        s.has_account(s.links[i].account_id),
{
    link_position_is_unique(s, i, s.links[i].kind, s.links[i].key);
}

/// The empty state is sound.
pub proof fn empty_is_sound()
    ensures
        Ledger::empty().sound(),
{
}

} // verus!
