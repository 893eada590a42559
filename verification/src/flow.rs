//! The order flow engine: the operations that the outside world calls.
//! Each is one transaction on the store. It either takes effect as a whole
//! and says what to announce, or is refused and leaves the store as it was.

use vstd::prelude::*;
use vstd::string::StringExecFns;
use crate::events::Event;
use crate::events::EventView;
use crate::events::event_views;
use crate::events::paid_events;
use crate::ledger::Ledger;
use crate::matcher::pay_orders;
use crate::outcome::OrderFlowError;
use crate::records::Account;
use crate::records::CreditNote;
use crate::records::NewOrder;
use crate::records::NewPayment;
use crate::records::Order;
use crate::records::OrderView;
use crate::records::Payment;
use crate::records::WalletClaim;
use crate::records::optional_text;
use crate::status::OrderStatus;
use crate::status::PaymentType;
use crate::status::TransferStatus;
use crate::steps::claim_address;
use crate::steps::order_row;
use crate::steps::payment_row;
use crate::steps::new_order_step;
use crate::steps::new_payment_step;
use crate::steps::confirm_payment_step;
use crate::steps::cancel_payment_step;
use crate::steps::cancel_order_step;
use crate::steps::claim_order_step;
use crate::steps::reset_order_step;
use crate::steps::fulfil_order_step;
use crate::steps::credit_note_step;
use crate::steps::expire_step;
use crate::steps::expire_rows;
use crate::steps::expiry_events;
use crate::steps::is_due;
use crate::steps::credit_note_txid;
use crate::steps::credit_note_memo;
use crate::steps::credit_row;
use crate::steps::dummy_address;
use crate::steps::resolving_keeps_sound;
use crate::steps::order_position_depends_on_ids;
use crate::steps::payment_position_depends_on_ids;
use crate::steps::storing_order_keeps_sound;
use crate::steps::storing_payment_keeps_sound;
use crate::steps::confirming_keeps_sound;
use crate::steps::cancelling_payment_keeps_sound;
use crate::steps::closing_keeps_sound;
use crate::steps::claiming_keeps_sound;
use crate::steps::resetting_keeps_sound;
use crate::steps::fulfil_order_keeps_sound;
use crate::steps::crediting_keeps_sound;
use crate::steps::expire_rows_properties;
use crate::steps::order_intake;
use crate::steps::order_intake_keeps_sound;
use crate::steps::payment_intake;
use crate::steps::payment_status_step;
use crate::steps::payment_status_keeps_sound;
use crate::steps::payable;
use crate::steps::pay_listed;
use crate::steps::paid_of_listed;
use crate::steps::pay_listed_keeps_sound;
use crate::matcher::settled;
use crate::matcher::settled_rows_are_known;
use crate::matcher::pay_keeps_sound;
use crate::matcher::paid_row;
use crate::store::Store;
use crate::store::optional_str;
use crate::store::order_views;
use crate::text::render_i64;
use crate::text::render_u64;
use crate::totals::received_total;

verus! {

/// What an operation gave, as a mathematical value.
pub open spec fn outcome(r: Result<Vec<Event>, OrderFlowError>) -> Result<
    Seq<EventView>,
    OrderFlowError,
> {
    match r {
        Ok(v) => Ok(event_views(v@)),
        Err(e) => Err(e),
    }
}

/// The ids of some orders.
pub open spec fn order_ids(orders: Seq<Order>) -> Seq<Seq<char>> {
    Seq::new(orders.len(), |i: int| orders[i].order_id@)
}

/// Borrows an optional text.
pub fn as_optional_str(t: &Option<String>) -> (r: Option<&str>)
    ensures
        optional_str(r) == optional_text(*t),
{
    match t {
        Some(s) => Some(s.as_str()),
        None => None,
    }
}

/// Adds one `OrderPaid` for each order to the announcements.
fn announce_paid(events: &mut Vec<Event>, paid: &Vec<Order>)
    ensures
        event_views(final(events)@) == event_views(old(events)@) + paid_events(
            order_views(paid@),
        ),
{
    let ghost before = event_views(events@);
    let mut i: usize = 0;
    assert(before + paid_events(order_views(paid@)).take(0) =~= before);
    while i < paid.len()
        invariant
            i <= paid.len(),
            event_views(events@) == before + paid_events(order_views(paid@)).take(i as int),
        decreases paid.len() - i,
    {
        let ghost shown = event_views(events@);
        events.push(Event::OrderPaid(paid[i].order_id.clone()));
        proof {
            let all = paid_events(order_views(paid@));
            assert(event_views(events@) =~= shown.push(all[i as int]));
            assert(all.take(i + 1) =~= all.take(i as int).push(all[i as int]));
            assert(before + all.take(i + 1) =~= (before + all.take(i as int)).push(all[i as int]));
        }
        i = i + 1;
    }
    proof {
        let all = paid_events(order_views(paid@));
        assert(all.take(paid.len() as int) =~= all);
    }
}

/// Whether an order is due to expire.
pub fn due(o: &Order, now: i64, unclaimed_timeout: u64, unpaid_timeout: u64) -> (r: bool)
    ensures
        r == is_due(o@, now, unclaimed_timeout, unpaid_timeout),
{
    let age: i128 = now as i128 - o.updated_at as i128;
    match o.status {
        OrderStatus::Unclaimed => age > unclaimed_timeout as i128,
        OrderStatus::Claimed => age > unpaid_timeout as i128,
        _ => false,
    }
}

/// Writes the transaction id of a credit note.
pub fn make_credit_note_txid(note: &CreditNote, now: i64) -> (r: String)
    ensures
        r@ == credit_note_txid(note@, now),
{
    let mut s = String::from_str("credit_note_");
    s.append(note.customer_id.as_str());
    s.append(":");
    let amount = render_u64(note.amount);
    s.append(amount.as_str());
    s.append(":");
    let at = render_i64(now);
    s.append(at.as_str());
    s
}

/// Writes the address that stands for a customer as a sender.
pub fn make_dummy_address(customer_id: &str) -> (r: String)
    ensures
        r@ == dummy_address(customer_id@),
{
    let mut s = String::from_str("dummy_");
    s.append(customer_id);
    s
}

/// Writes the memo of a credit note.
pub fn make_credit_note_memo(note: &CreditNote) -> (r: String)
    ensures
        r@ == credit_note_memo(note@),
{
    let mut s = String::from_str("Credit note: ");
    match &note.reason {
        Some(reason) => {
            s.append(reason.as_str());
        },
        None => {
            s.append("No reason given");
        },
    }
    s
}

/// The engine. It owns the store, so that nothing else can change what the
/// accounts add up to.
pub struct OrderFlow {
    store: Store,
}

impl View for OrderFlow {
    type V = Ledger;

    closed spec fn view(&self) -> Ledger {
        self.store@
    }
}

impl OrderFlow {
    /// An engine on an empty store.
    pub fn new() -> (r: OrderFlow)
        ensures
            r@ == Ledger::empty(),
            r@.sound(),
    {
        OrderFlow { store: Store::new() }
    }

    /// Finds the account that owns the two identities, or opens one.
    pub fn resolve_account(&mut self, customer: Option<&str>, address: Option<&str>, now: i64) -> (r:
        Result<i64, OrderFlowError>)
        requires
            old(self)@.sound(),
        ensures
            r == old(self)@.resolved_account(optional_str(customer), optional_str(address)),
            final(self)@ == old(self)@.after_resolving(
                optional_str(customer),
                optional_str(address),
                now,
            ),
            final(self)@.sound(),
    {
        proof {
            resolving_keeps_sound(self@, optional_str(customer), optional_str(address), now);
        }
        self.store.fetch_or_create_account(customer, address, now)
    }

    /// Stores an order for its customer and gives the account that holds
    /// it. The matcher does not run.
    pub fn store_order(&mut self, order: NewOrder, now: i64) -> (r: Result<i64, OrderFlowError>)
        requires
            old(self)@.sound(),
        ensures
            final(self)@ == order_intake(old(self)@, order@, now).ledger,
            r == order_intake(old(self)@, order@, now).result,
            final(self)@.sound(),
            r matches Ok(a) ==> final(self)@.has_account(a),
    {
        let ghost s = self@;
        let ghost o = order@;
        proof {
            order_intake_keeps_sound(s, o, now);
        }
        match self.store.order(order.order_id.as_str()) {
            Some(known) => {
                return Ok(known.account_id);
            },
            None => {},
        }
        let claimed = order.claim.is_some();
        let address: Option<&str> = match &order.claim {
            Some(c) => {
                if !c.verified {
                    return Err(OrderFlowError::InvalidSignature);
                }
                Some(c.address.as_str())
            },
            None => None,
        };
        if self.store.order_count() as u64 >= 9223372036854775807u64 {
            return Err(OrderFlowError::StoreFull);
        }
        let customer = as_optional_str(&order.customer_id);
        let account = match self.store.fetch_or_create_account(customer, address, now) {
            Ok(a) => a,
            Err(e) => {
                return Err(e);
            },
        };
        proof {
            resolving_keeps_sound(s, o.customer_id, claim_address(o.claim), now);
            order_position_depends_on_ids(s, self.store@, o.order_id);
            storing_order_keeps_sound(self.store@, order_row(o, account, now), now);
        }
        let amount = order.amount;
        let row = Order {
            order_id: order.order_id,
            customer_id: order.customer_id,
            account_id: account,
            amount,
            memo: order.memo,
            status: if claimed {
                OrderStatus::Claimed
            } else {
                OrderStatus::Unclaimed
            },
            created_at: order.created_at,
            updated_at: now,
            fulfilled: false,
        };
        assert(row@ == order_row(o, account, now));
        let inserted = self.store.insert_order_idempotent(row);
        let adjusted = self.store.adjust_account(account, 0, 0, amount as i128, now);
        assert(inserted is Ok && adjusted is Ok);
        Ok(account)
    }

    /// Takes a new order from the storefront.
    pub fn process_new_order(&mut self, order: NewOrder, now: i64) -> (r: Result<
        Vec<Event>,
        OrderFlowError,
    >)
        requires
            old(self)@.sound(),
        ensures
            final(self)@ == new_order_step(old(self)@, order@, now).ledger,
            outcome(r) == new_order_step(old(self)@, order@, now).result,
            final(self)@.sound(),
    {
        let ghost o = order@;
        let known = self.store.has_order(order.order_id.as_str());
        let claimed = order.claim.is_some();
        let order_id = order.order_id.clone();
        match self.store_order(order, now) {
            Err(e) => Err(e),
            Ok(account) => {
                let mut events: Vec<Event> = Vec::new();
                assert(event_views(events@) =~= Seq::empty());
                if !known {
                    events.push(Event::OrderReceived(order_id));
                    assert(event_views(events@) =~= seq![EventView::OrderReceived(o.order_id)]);
                    if claimed {
                        let paid = pay_orders(&mut self.store, account, now);
                        announce_paid(&mut events, &paid);
                    }
                }
                Ok(events)
            },
        }
    }

    /// Stores a payment for its sender and gives the account that holds
    /// it.
    pub fn store_payment(&mut self, payment: NewPayment, now: i64) -> (r: Result<
        i64,
        OrderFlowError,
    >)
        requires
            old(self)@.sound(),
        ensures
            final(self)@ == payment_intake(old(self)@, payment@, now).ledger,
            r == payment_intake(old(self)@, payment@, now).result,
            final(self)@.sound(),
    {
        let ghost s = self@;
        let ghost p = payment@;
        match self.store.payment(payment.txid.as_str()) {
            Some(known) => {
                return Ok(known.account_id);
            },
            None => {},
        }
        if self.store.payment_count() as u64 >= 9223372036854775807u64 {
            return Err(OrderFlowError::StoreFull);
        }
        let account = match self.store.fetch_or_create_account(
            None,
            Some(payment.sender.as_str()),
            now,
        ) {
            Ok(a) => a,
            Err(e) => {
                return Err(e);
            },
        };
        proof {
            resolving_keeps_sound(s, None, Some(p.sender), now);
            payment_position_depends_on_ids(s, self.store@, p.txid);
            storing_payment_keeps_sound(self.store@, payment_row(p, account, now));
        }
        let row = Payment {
            txid: payment.txid,
            sender: payment.sender,
            account_id: account,
            amount: payment.amount,
            memo: payment.memo,
            order_id: payment.order_id,
            payment_type: PaymentType::OnChain,
            status: TransferStatus::Received,
            created_at: now,
        };
        assert(row@ == payment_row(p, account, now));
        let inserted = self.store.insert_payment_idempotent(row);
        assert(inserted is Ok);
        Ok(account)
    }

    /// Takes a new payment from a wallet.
    pub fn process_new_payment(&mut self, payment: NewPayment, now: i64) -> (r: Result<
        Vec<Event>,
        OrderFlowError,
    >)
        requires
            old(self)@.sound(),
        ensures
            final(self)@ == new_payment_step(old(self)@, payment@, now).ledger,
            outcome(r) == new_payment_step(old(self)@, payment@, now).result,
            final(self)@.sound(),
    {
        let ghost p = payment@;
        let known = self.store.has_payment(payment.txid.as_str());
        let txid = payment.txid.clone();
        match self.store_payment(payment, now) {
            Err(e) => Err(e),
            Ok(_) => {
                let mut events: Vec<Event> = Vec::new();
                assert(event_views(events@) =~= Seq::empty());
                if !known {
                    events.push(Event::PaymentReceived(txid));
                    assert(event_views(events@) =~= seq![EventView::PaymentReceived(p.txid)]);
                }
                Ok(events)
            },
        }
    }

    /// Moves a payment to a status; a confirmation adds its amount to the
    /// credits of its account. The matcher does not run.
    pub fn set_payment_status(&mut self, txid: &str, status: TransferStatus, now: i64) -> (r: Result<
        Option<i64>,
        OrderFlowError,
    >)
        requires
            old(self)@.sound(),
        ensures
            r == old(self)@.payment_update(txid@, status),
            final(self)@ == payment_status_step(old(self)@, txid@, status, now),
            final(self)@.sound(),
    {
        let ghost s = self@;
        proof {
            payment_status_keeps_sound(s, txid@, status, now);
        }
        let found = self.store.payment(txid);
        match self.store.update_payment_status(txid, status) {
            Err(e) => Err(e),
            Ok(None) => Ok(None),
            Ok(Some(account)) => {
                if status == TransferStatus::Confirmed {
                    let amount: u64 = match found {
                        Some(p) => p.amount,
                        None => 0,
                    };
                    proof {
                        let i = s.payment_position(txid@).unwrap();
                        assert(s.holds_payment(i, txid@));
                        confirming_keeps_sound(s, i, now);
                    }
                    let adjusted = self.store.adjust_account(account, amount as i128, 0, 0, now);
                    assert(adjusted is Ok);
                }
                Ok(Some(account))
            },
        }
    }

    /// The claimed orders of the account that its credit pays, as they
    /// stand now, in the order of paying. Nothing changes.
    pub fn payable_orders(&self, account: i64) -> (r: Vec<Order>)
        requires
            self@.sound(),
            self@.has_account(account),
        ensures
            order_views(r@) == payable(self@, account),
    {
        let mut trial = self.store.copy();
        let paid = pay_orders(&mut trial, account, 0);
        let mut out: Vec<Order> = Vec::new();
        let mut k: usize = 0;
        proof {
            settled_rows_are_known(self@, account, 0, self@.orders.len());
            assert(order_views(out@) =~= payable(self@, account).take(0));
        }
        while k < paid.len()
            invariant
                self@.sound(),
                k <= paid.len(),
                order_views(paid@) == settled(self@, account, 0),
                forall|j: int|
                    0 <= j < settled(self@, account, 0).len() ==> self@.order_position(
                        (#[trigger] settled(self@, account, 0)[j]).order_id,
                    ) is Some,
                order_views(out@) == payable(self@, account).take(k as int),
            decreases paid.len() - k,
        {
            let ghost shown = order_views(out@);
            assert(order_views(paid@)[k as int] == paid@[k as int]@);
            match self.store.order(paid[k].order_id.as_str()) {
                Some(o) => {
                    out.push(o);
                },
                None => {},
            }
            proof {
                let all = payable(self@, account);
                assert(order_views(out@) =~= shown.push(all[k as int]));
                assert(all.take(k + 1) =~= all.take(k as int).push(all[k as int]));
            }
            k = k + 1;
        }
        proof {
            let all = payable(self@, account);
            assert(all.take(paid.len() as int) =~= all);
        }
        out
    }

    /// Pays each order of the list that is claimed by the account and
    /// costs no more than the account can spend when its turn comes. It
    /// gives the orders that it paid.
    pub fn pay_listed_orders(&mut self, account: i64, orders: &[Order], now: i64) -> (r: Vec<Order>)
        requires
            old(self)@.sound(),
        ensures
            final(self)@ == pay_listed(old(self)@, account, order_ids(orders@), now),
            order_views(r@) == paid_of_listed(old(self)@, account, order_ids(orders@), now),
            final(self)@.sound(),
    {
        let ghost s = self@;
        let ghost ids = order_ids(orders@);
        let mut paid: Vec<Order> = Vec::new();
        let mut k: usize = 0;
        proof {
            assert(ids.skip(0) =~= ids);
            assert(order_views(paid@) + paid_of_listed(s, account, ids, now) =~= paid_of_listed(
                s,
                account,
                ids,
                now,
            ));
        }
        while k < orders.len()
            invariant
                self@.sound(),
                ids == order_ids(orders@),
                k <= orders.len(),
                pay_listed(s, account, ids, now) == pay_listed(
                    self@,
                    account,
                    ids.skip(k as int),
                    now,
                ),
                paid_of_listed(s, account, ids, now) == order_views(paid@) + paid_of_listed(
                    self@,
                    account,
                    ids.skip(k as int),
                    now,
                ),
            decreases orders.len() - k,
        {
            let ghost before = self@;
            let ghost shown = order_views(paid@);
            let ghost rest = ids.skip(k as int);
            proof {
                assert(rest[0] == orders@[k as int].order_id@);
                assert(rest.drop_first() =~= ids.skip(k + 1));
            }
            let id = orders[k].order_id.as_str();
            let balance = match self.store.account(account) {
                Some(a) => Some(a.balance()),
                None => None,
            };
            proof {
                if before.has_account(account) {
                    assert(before.account_balanced(account));
                }
            }
            match (self.store.order(id), balance) {
                (Some(mut row), Some(b)) => {
                    if row.status == OrderStatus::Claimed && row.account_id == account
                        && row.amount as u128 <= b {
                        proof {
                            let i = before.order_position(id@).unwrap();
                            assert(before.holds_order(i, id@));
                            pay_keeps_sound(before, i, now);
                        }
                        let marked = self.store.set_order_status(id, OrderStatus::Paid, now);
                        let charged = self.store.adjust_account(
                            account,
                            0,
                            row.amount as i128,
                            -(row.amount as i128),
                            now,
                        );
                        assert(marked is Ok && charged is Ok);
                        row.status = OrderStatus::Paid;
                        row.updated_at = now;
                        paid.push(row);
                        proof {
                            let i = before.order_position(id@).unwrap();
                            let head = seq![paid_row(before.orders[i], now)];
                            let tail = paid_of_listed(self@, account, ids.skip(k + 1), now);
                            assert(order_views(paid@) =~= shown + head);
                            assert(order_views(paid@) + tail =~= shown + (head + tail));
                        }
                    }
                },
                _ => {},
            }
            k = k + 1;
        }
        proof {
            pay_listed_keeps_sound(s, account, ids, now);
            assert(ids.skip(orders.len() as int) =~= Seq::<Seq<char>>::empty());
            assert(order_views(paid@) + Seq::<OrderView>::empty() =~= order_views(paid@));
        }
        paid
    }

    /// Confirms a payment: its amount becomes spendable, and the matcher
    /// runs on its account.
    pub fn confirm_payment(&mut self, txid: &str, now: i64) -> (r: Result<
        Vec<Event>,
        OrderFlowError,
    >)
        requires
            old(self)@.sound(),
        ensures
            final(self)@ == confirm_payment_step(old(self)@, txid@, now).ledger,
            outcome(r) == confirm_payment_step(old(self)@, txid@, now).result,
            final(self)@.sound(),
    {
        let ghost s = self@;
        let found = self.store.payment(txid);
        match self.store.update_payment_status(txid, TransferStatus::Confirmed) {
            Err(e) => Err(e),
            Ok(None) => {
                let events: Vec<Event> = Vec::new();
                assert(event_views(events@) =~= Seq::empty());
                Ok(events)
            },
            Ok(Some(account)) => {
                let amount: u64 = match found {
                    Some(p) => p.amount,
                    None => 0,
                };
                proof {
                    let i = s.payment_position(txid@).unwrap();
                    assert(s.holds_payment(i, txid@));
                    confirming_keeps_sound(s, i, now);
                }
                let adjusted = self.store.adjust_account(account, amount as i128, 0, 0, now);
                assert(adjusted is Ok);
                let mut events: Vec<Event> = Vec::new();
                events.push(Event::PaymentConfirmed(String::from_str(txid)));
                assert(event_views(events@) =~= seq![EventView::PaymentConfirmed(txid@)]);
                let paid = pay_orders(&mut self.store, account, now);
                announce_paid(&mut events, &paid);
                Ok(events)
            },
        }
    }

    /// Cancels a payment that has not been confirmed.
    pub fn cancel_payment(&mut self, txid: &str) -> (r: Result<Vec<Event>, OrderFlowError>)
        requires
            old(self)@.sound(),
        ensures
            final(self)@ == cancel_payment_step(old(self)@, txid@).ledger,
            outcome(r) == cancel_payment_step(old(self)@, txid@).result,
            final(self)@.sound(),
    {
        let ghost s = self@;
        match self.store.update_payment_status(txid, TransferStatus::Cancelled) {
            Err(e) => Err(e),
            Ok(changed) => {
                proof {
                    if changed is Some {
                        let i = s.payment_position(txid@).unwrap();
                        assert(s.holds_payment(i, txid@));
                        cancelling_payment_keeps_sound(s, i);
                    }
                }
                let events: Vec<Event> = Vec::new();
                assert(event_views(events@) =~= Seq::empty());
                Ok(events)
            },
        }
    }

    /// Takes a wallet's claim on an unclaimed order.
    pub fn claim_order(&mut self, order_id: &str, claim: &WalletClaim, now: i64) -> (r: Result<
        Vec<Event>,
        OrderFlowError,
    >)
        requires
            old(self)@.sound(),
        ensures
            final(self)@ == claim_order_step(old(self)@, order_id@, claim@, now).ledger,
            outcome(r) == claim_order_step(old(self)@, order_id@, claim@, now).result,
            final(self)@.sound(),
    {
        let ghost s = self@;
        if !claim.verified {
            return Err(OrderFlowError::InvalidSignature);
        }
        let order = match self.store.order(order_id) {
            Some(o) => o,
            None => {
                return Err(OrderFlowError::OrderNotFound);
            },
        };
        if order.status != OrderStatus::Unclaimed {
            return Err(OrderFlowError::InvalidTransition);
        }
        let ghost i = s.order_position(order_id@).unwrap();
        let customer = as_optional_str(&order.customer_id);
        let account = match self.store.fetch_or_create_account(
            customer,
            Some(claim.address.as_str()),
            now,
        ) {
            Ok(a) => a,
            Err(e) => {
                return Err(e);
            },
        };
        proof {
            assert(s.holds_order(i, order_id@));
            resolving_keeps_sound(s, s.orders[i].customer_id, Some(claim@.address), now);
            claiming_keeps_sound(self.store@, i, account, now);
        }
        let amount = order.amount;
        let released = self.store.adjust_account(order.account_id, 0, 0, -(amount as i128), now);
        let moved = self.store.reassign_order(order_id, account);
        let marked = self.store.set_order_status(order_id, OrderStatus::Claimed, now);
        let held = self.store.adjust_account(account, 0, 0, amount as i128, now);
        assert(released is Ok && moved is Ok && marked is Ok && held is Ok);
        let paid = pay_orders(&mut self.store, account, now);
        let mut events: Vec<Event> = Vec::new();
        assert(event_views(events@) =~= Seq::empty());
        announce_paid(&mut events, &paid);
        assert(event_views(events@) =~= paid_events(order_views(paid@)));
        Ok(events)
    }

    /// Cancels an unclaimed or claimed order for an administrator.
    pub fn cancel_order(&mut self, order_id: &str, now: i64) -> (r: Result<
        Vec<Event>,
        OrderFlowError,
    >)
        requires
            old(self)@.sound(),
        ensures
            final(self)@ == cancel_order_step(old(self)@, order_id@, now).ledger,
            outcome(r) == cancel_order_step(old(self)@, order_id@, now).result,
            final(self)@.sound(),
    {
        let ghost s = self@;
        let found = self.store.order(order_id);
        match self.store.set_order_status(order_id, OrderStatus::Cancelled, now) {
            Err(e) => Err(e),
            Ok(_) => {
                let (account, amount): (i64, u64) = match found {
                    Some(o) => (o.account_id, o.amount),
                    None => (0, 0),
                };
                proof {
                    let i = s.order_position(order_id@).unwrap();
                    assert(s.holds_order(i, order_id@));
                    closing_keeps_sound(s, i, OrderStatus::Cancelled, now);
                }
                let released = self.store.adjust_account(account, 0, 0, -(amount as i128), now);
                assert(released is Ok);
                let mut events: Vec<Event> = Vec::new();
                events.push(Event::OrderCancelled(String::from_str(order_id)));
                assert(event_views(events@) =~= seq![EventView::OrderCancelled(order_id@)]);
                Ok(events)
            },
        }
    }

    /// One pass of the expiry worker: every unclaimed order older than
    /// `unclaimed_timeout` seconds and every claimed order older than
    /// `unpaid_timeout` seconds expires.
    pub fn expire_orders(&mut self, now: i64, unclaimed_timeout: u64, unpaid_timeout: u64) -> (r:
        Result<Vec<Event>, OrderFlowError>)
        requires
            old(self)@.sound(),
        ensures
            final(self)@ == expire_step(old(self)@, now, unclaimed_timeout, unpaid_timeout).ledger,
            outcome(r) == expire_step(old(self)@, now, unclaimed_timeout, unpaid_timeout).result,
            final(self)@.sound(),
    {
        let ghost s = self@;
        let n = self.store.order_count();
        let mut events: Vec<Event> = Vec::new();
        let mut k: usize = 0;
        assert(event_views(events@) =~= Seq::empty());
        while k < n
            invariant
                s.sound(),
                n == s.orders.len(),
                k <= n,
                self.store@ == expire_rows(s, k as nat, now, unclaimed_timeout, unpaid_timeout),
                event_views(events@) == expiry_events(
                    s,
                    k as nat,
                    now,
                    unclaimed_timeout,
                    unpaid_timeout,
                ),
            decreases n - k,
        {
            proof {
                expire_rows_properties(s, k as nat, now, unclaimed_timeout, unpaid_timeout);
            }
            let ghost before = self.store@;
            let ghost shown = event_views(events@);
            let order = self.store.order_at(k);
            if due(&order, now, unclaimed_timeout, unpaid_timeout) {
                proof {
                    closing_keeps_sound(before, k as int, OrderStatus::Expired, now);
                }
                let marked = self.store.set_order_status(
                    order.order_id.as_str(),
                    OrderStatus::Expired,
                    now,
                );
                let released = self.store.adjust_account(
                    order.account_id,
                    0,
                    0,
                    -(order.amount as i128),
                    now,
                );
                assert(marked is Ok && released is Ok);
                events.push(Event::OrderCancelled(order.order_id));
                assert(event_views(events@) =~= shown.push(
                    EventView::OrderCancelled(before.orders[k as int].order_id),
                ));
            }
            k = k + 1;
        }
        proof {
            expire_rows_properties(s, n as nat, now, unclaimed_timeout, unpaid_timeout);
        }
        Ok(events)
    }

    /// Puts a paid order back among the claimed ones for an administrator.
    pub fn reset_order(&mut self, order_id: &str, now: i64) -> (r: Result<
        Vec<Event>,
        OrderFlowError,
    >)
        requires
            old(self)@.sound(),
        ensures
            final(self)@ == reset_order_step(old(self)@, order_id@, now).ledger,
            outcome(r) == reset_order_step(old(self)@, order_id@, now).result,
            final(self)@.sound(),
    {
        let ghost s = self@;
        let found = self.store.order(order_id);
        match self.store.reopen_order(order_id, now) {
            Err(e) => Err(e),
            Ok(_) => {
                let (account, amount): (i64, u64) = match found {
                    Some(o) => (o.account_id, o.amount),
                    None => (0, 0),
                };
                proof {
                    let i = s.order_position(order_id@).unwrap();
                    assert(s.holds_order(i, order_id@));
                    resetting_keeps_sound(s, i, now);
                }
                let restored = self.store.adjust_account(
                    account,
                    0,
                    -(amount as i128),
                    amount as i128,
                    now,
                );
                assert(restored is Ok);
                let events: Vec<Event> = Vec::new();
                assert(event_views(events@) =~= Seq::empty());
                Ok(events)
            },
        }
    }

    /// Marks a paid order as delivered.
    pub fn fulfil_order(&mut self, order_id: &str) -> (r: Result<Vec<Event>, OrderFlowError>)
        requires
            old(self)@.sound(),
        ensures
            final(self)@ == fulfil_order_step(old(self)@, order_id@).ledger,
            outcome(r) == fulfil_order_step(old(self)@, order_id@).result,
            final(self)@.sound(),
    {
        proof {
            fulfil_order_keeps_sound(self@, order_id@);
        }
        match self.store.mark_fulfilled(order_id) {
            Err(e) => Err(e),
            Ok(_) => {
                let events: Vec<Event> = Vec::new();
                assert(event_views(events@) =~= Seq::empty());
                Ok(events)
            },
        }
    }

    /// Issues a credit note at the time `now`.
    pub fn issue_credit_note(&mut self, note: &CreditNote, now: i64) -> (r: Result<
        Vec<Event>,
        OrderFlowError,
    >)
        requires
            old(self)@.sound(),
        ensures
            final(self)@ == credit_note_step(old(self)@, note@, now).ledger,
            outcome(r) == credit_note_step(old(self)@, note@, now).result,
            final(self)@.sound(),
    {
        let ghost s = self@;
        let txid = make_credit_note_txid(note, now);
        if self.store.has_payment(txid.as_str()) {
            let events: Vec<Event> = Vec::new();
            assert(event_views(events@) =~= Seq::empty());
            return Ok(events);
        }
        if self.store.payment_count() as u64 >= 9223372036854775807u64 {
            return Err(OrderFlowError::StoreFull);
        }
        let sender = make_dummy_address(note.customer_id.as_str());
        let account = match self.store.fetch_or_create_account(
            Some(note.customer_id.as_str()),
            Some(sender.as_str()),
            now,
        ) {
            Ok(a) => a,
            Err(e) => {
                return Err(e);
            },
        };
        proof {
            resolving_keeps_sound(
                s,
                Some(note@.customer_id),
                Some(dummy_address(note@.customer_id)),
                now,
            );
            payment_position_depends_on_ids(s, self.store@, txid@);
            crediting_keeps_sound(self.store@, credit_row(note@, account, now), now);
        }
        let row = Payment {
            txid: txid.clone(),
            sender,
            account_id: account,
            amount: note.amount,
            memo: Some(make_credit_note_memo(note)),
            order_id: None,
            payment_type: PaymentType::Manual,
            status: TransferStatus::Confirmed,
            created_at: now,
        };
        assert(row@ == credit_row(note@, account, now));
        let inserted = self.store.insert_payment_idempotent(row);
        let credited = self.store.adjust_account(account, note.amount as i128, 0, 0, now);
        assert(inserted is Ok && credited is Ok);
        let mut events: Vec<Event> = Vec::new();
        events.push(Event::PaymentConfirmed(txid));
        assert(event_views(events@) =~= seq![
            EventView::PaymentConfirmed(credit_note_txid(note@, now)),
        ]);
        let paid = pay_orders(&mut self.store, account, now);
        announce_paid(&mut events, &paid);
        Ok(events)
    }

    /// What the account still waits for: the amounts of its payments that
    /// are received and not yet confirmed, added up.
    pub fn pending_credit(&self, account: i64) -> (r: u128)
        requires
            self@.sound(),
        ensures
            r == received_total(self@.payments, account),
    {
        let n = self.store.payment_count();
        let mut total: u128 = 0;
        let mut k: usize = 0;
        assert(self@.payments.take(0) =~= Seq::empty());
        while k < n
            invariant
                k <= n,
                n == self@.payments.len(),
                n <= i64::MAX,
                total == received_total(self@.payments.take(k as int), account),
            decreases n - k,
        {
            let p = self.store.payment_at(k);
            proof {
                let all = self@.payments;
                assert(all.take(k + 1) =~= all.take(k as int).push(all[k as int]));
                crate::totals::payment_totals_after_push(all.take(k as int), all[k as int], account);
                crate::totals::totals_fit(Seq::empty(), all.take(k + 1), account);
                crate::steps::rows_leave_room((k + 1) as nat);
            }
            if p.account_id == account && p.status == TransferStatus::Received {
                total = total + p.amount as u128;
            }
            k = k + 1;
        }
        assert(self@.payments.take(n as int) =~= self@.payments);
        total
    }

    /// The account with this id.
    pub fn account(&self, account_id: i64) -> (r: Option<Account>)
        ensures
            r == if self@.has_account(account_id) {
                Some(self@.account(account_id))
            } else {
                None
            },
    {
        self.store.account(account_id)
    }

    /// A copy of the order with this id.
    pub fn order(&self, order_id: &str) -> (r: Option<Order>)
        requires
            self@.sound(),
        ensures
            match self@.order_position(order_id@) {
                Some(i) => r matches Some(o) && o@ == self@.orders[i],
                None => r is None,
            },
    {
        self.store.order(order_id)
    }

    /// A copy of the payment with this transaction id.
    pub fn payment(&self, txid: &str) -> (r: Option<Payment>)
        requires
            self@.sound(),
        ensures
            match self@.payment_position(txid@) {
                Some(i) => r matches Some(p) && p@ == self@.payments[i],
                None => r is None,
            },
    {
        self.store.payment(txid)
    }

    /// The store, to read from.
    pub fn store(&self) -> (r: &Store)
        ensures
            r@ == self@,
    {
        &self.store
    }
}

} // verus!
