use tari_payment_engine::events::Event;
use tari_payment_engine::flow::OrderFlow;
use tari_payment_engine::journal::{Command, Entry};
use tari_payment_engine::outcome::OrderFlowError;
use tari_payment_engine::records::{CreditNote, NewOrder, NewPayment, WalletClaim};
use tari_payment_engine::status::{OrderStatus, PaymentType, TransferStatus};

fn order(id: &str, customer: &str, amount: u64, created_at: i64) -> NewOrder {
    NewOrder {
        order_id: id.to_string(),
        customer_id: Some(customer.to_string()),
        amount,
        memo: None,
        created_at,
        claim: None,
    }
}

fn claimed_order(id: &str, customer: &str, amount: u64, created_at: i64, wallet: &str) -> NewOrder {
    NewOrder {
        order_id: id.to_string(),
        customer_id: Some(customer.to_string()),
        amount,
        memo: None,
        created_at,
        claim: Some(WalletClaim { address: wallet.to_string(), verified: true }),
    }
}

fn payment(txid: &str, sender: &str, amount: u64) -> NewPayment {
    NewPayment { txid: txid.to_string(), sender: sender.to_string(), amount, memo: None, order_id: None }
}

fn claim(address: &str) -> WalletClaim {
    WalletClaim { address: address.to_string(), verified: true }
}

fn names(events: &[Event]) -> Vec<String> {
    events
        .iter()
        .map(|e| match e {
            Event::OrderReceived(s) => format!("OrderReceived({s})"),
            Event::OrderPaid(s) => format!("OrderPaid({s})"),
            Event::OrderCancelled(s) => format!("OrderCancelled({s})"),
            Event::PaymentReceived(s) => format!("PaymentReceived({s})"),
            Event::PaymentConfirmed(s) => format!("PaymentConfirmed({s})"),
        })
        .collect()
}

fn statuses(flow: &OrderFlow) -> Vec<(String, OrderStatus)> {
    let store = flow.store();
    (0..store.order_count()).map(|i| store.order_at(i)).map(|o| (o.order_id, o.status)).collect()
}

#[test]
fn order_then_matching_payment() {
    let mut flow = OrderFlow::new();
    let events = flow.process_new_order(order("A", "c1", 100, 0), 0).unwrap();
    assert_eq!(names(&events), vec!["OrderReceived(A)"]);
    let events = flow.claim_order("A", &claim("W"), 1).unwrap();
    assert!(events.is_empty());
    assert_eq!(flow.order("A").unwrap().status, OrderStatus::Claimed);
    let events = flow.process_new_payment(payment("t1", "W", 100), 2).unwrap();
    assert_eq!(names(&events), vec!["PaymentReceived(t1)"]);
    assert_eq!(flow.account(1).unwrap().credits, 0);
    let events = flow.confirm_payment("t1", 3).unwrap();
    assert_eq!(names(&events), vec!["PaymentConfirmed(t1)", "OrderPaid(A)"]);
    let o = flow.order("A").unwrap();
    assert_eq!(o.status, OrderStatus::Paid);
    assert_eq!(o.account_id, 1);
    assert_eq!(flow.store().account_count(), 1);
    let account = flow.account(1).unwrap();
    assert_eq!(account.credits, 100);
    assert_eq!(account.debits, 100);
    assert_eq!(account.pending, 0);
    let p = flow.payment("t1").unwrap();
    assert_eq!(p.status, TransferStatus::Confirmed);
    assert_eq!(p.payment_type, PaymentType::OnChain);
    assert_eq!(p.account_id, 1);
}

#[test]
fn payment_before_claim_keeps_wallet_and_customer_apart() {
    let mut flow = OrderFlow::new();
    flow.process_new_order(order("A", "c1", 100, 0), 0).unwrap();
    flow.process_new_payment(payment("t1", "W", 100), 1).unwrap();
    assert_eq!(flow.claim_order("A", &claim("W"), 2).err(), Some(OrderFlowError::IdentityConflict));
    let events = flow.confirm_payment("t1", 3).unwrap();
    assert_eq!(names(&events), vec!["PaymentConfirmed(t1)"]);
    assert_eq!(flow.order("A").unwrap().status, OrderStatus::Unclaimed);
    assert_eq!(flow.account(1).unwrap().pending, 100);
    assert_eq!(flow.account(2).unwrap().credits, 100);
}

#[test]
fn duplicate_order() {
    let mut flow = OrderFlow::new();
    let first = flow.process_new_order(order("A", "c1", 100, 0), 0).unwrap();
    let second = flow.process_new_order(order("A", "c1", 100, 0), 5).unwrap();
    assert_eq!(names(&first), vec!["OrderReceived(A)"]);
    assert!(second.is_empty());
    assert_eq!(flow.store().order_count(), 1);
    assert_eq!(flow.store().account_count(), 1);
    assert_eq!(flow.account(1).unwrap().pending, 100);
    assert_eq!(flow.order("A").unwrap().updated_at, 0);
}

#[test]
fn duplicate_payment() {
    let mut flow = OrderFlow::new();
    let first = flow.process_new_payment(payment("t1", "W", 70), 0).unwrap();
    let second = flow.process_new_payment(payment("t1", "W", 70), 9).unwrap();
    assert_eq!(names(&first), vec!["PaymentReceived(t1)"]);
    assert!(second.is_empty());
    assert_eq!(flow.store().payment_count(), 1);
    assert_eq!(flow.payment("t1").unwrap().created_at, 0);
}

#[test]
fn overpay() {
    let mut flow = OrderFlow::new();
    flow.process_new_order(claimed_order("O1", "c1", 100, 0, "W"), 0).unwrap();
    flow.process_new_payment(payment("t1", "W", 150), 1).unwrap();
    let events = flow.confirm_payment("t1", 2).unwrap();
    assert_eq!(names(&events), vec!["PaymentConfirmed(t1)", "OrderPaid(O1)"]);
    assert_eq!(flow.order("O1").unwrap().status, OrderStatus::Paid);
    let account = flow.account(1).unwrap();
    assert_eq!(account.credits, 150);
    assert_eq!(account.debits, 100);
    assert_eq!(account.balance(), 50);
    assert_eq!(account.pending, 0);
}

#[test]
fn identity_conflict() {
    let mut flow = OrderFlow::new();
    assert_eq!(flow.resolve_account(Some("c1"), None, 0), Ok(1));
    assert_eq!(flow.resolve_account(None, Some("W"), 0), Ok(2));
    flow.process_new_order(order("A", "c1", 100, 0), 1).unwrap();
    let before = (flow.store().account_count(), flow.account(1).unwrap(), flow.account(2).unwrap());
    let r = flow.claim_order("A", &claim("W"), 2);
    assert_eq!(r.err(), Some(OrderFlowError::IdentityConflict));
    let o = flow.order("A").unwrap();
    assert_eq!(o.status, OrderStatus::Unclaimed);
    assert_eq!(o.account_id, 1);
    assert_eq!(o.updated_at, 1);
    assert_eq!((flow.store().account_count(), flow.account(1).unwrap(), flow.account(2).unwrap()), before);
    assert_eq!(flow.resolve_account(Some("c1"), Some("W"), 3), Err(OrderFlowError::IdentityConflict));
}

#[test]
fn expiry() {
    let mut flow = OrderFlow::new();
    flow.process_new_order(claimed_order("O2", "c1", 80, 0, "W"), 0).unwrap();
    assert_eq!(flow.account(1).unwrap().pending, 80);
    let events = flow.expire_orders(60, 3600, 60).unwrap();
    assert!(events.is_empty());
    assert_eq!(flow.order("O2").unwrap().status, OrderStatus::Claimed);
    let events = flow.expire_orders(70, 3600, 60).unwrap();
    assert_eq!(names(&events), vec!["OrderCancelled(O2)"]);
    let o = flow.order("O2").unwrap();
    assert_eq!(o.status, OrderStatus::Expired);
    assert_eq!(o.updated_at, 70);
    assert_eq!(flow.account(1).unwrap().pending, 0);
    assert!(flow.expire_orders(500, 3600, 60).unwrap().is_empty());
}

#[test]
fn expiry_of_unclaimed_orders_has_its_own_timeout() {
    let mut flow = OrderFlow::new();
    flow.process_new_order(order("U", "c1", 5, 0), 0).unwrap();
    flow.process_new_order(claimed_order("C", "c2", 7, 0, "W"), 0).unwrap();
    let events = flow.expire_orders(100, 99, 100).unwrap();
    assert_eq!(names(&events), vec!["OrderCancelled(U)"]);
    assert_eq!(statuses(&flow), vec![("U".to_string(), OrderStatus::Expired), ("C".to_string(), OrderStatus::Claimed)]);
    let events = flow.expire_orders(101, 99, 100).unwrap();
    assert_eq!(names(&events), vec!["OrderCancelled(C)"]);
}

#[test]
fn credit_note() {
    let mut flow = OrderFlow::new();
    flow.process_new_order(order("A", "c1", 40, 0), 0).unwrap();
    flow.claim_order("A", &claim("W"), 1).unwrap();
    let note = CreditNote { customer_id: "c1".to_string(), amount: 50, reason: None };
    let events = flow.issue_credit_note(&note, 1700000000).unwrap();
    assert_eq!(names(&events), vec!["PaymentConfirmed(credit_note_c1:50:1700000000)", "OrderPaid(A)"]);
    let p = flow.payment("credit_note_c1:50:1700000000").unwrap();
    assert_eq!(p.status, TransferStatus::Confirmed);
    assert_eq!(p.payment_type, PaymentType::Manual);
    assert_eq!(p.sender, "dummy_c1");
    assert_eq!(p.amount, 50);
    assert_eq!(p.memo.as_deref(), Some("Credit note: No reason given"));
    let account = flow.account(1).unwrap();
    assert_eq!(account.credits, 50);
    assert_eq!(account.debits, 40);
    assert_eq!(flow.order("A").unwrap().status, OrderStatus::Paid);
    assert!(flow.issue_credit_note(&note, 1700000000).unwrap().is_empty());
    assert_eq!(flow.account(1).unwrap().credits, 50);
}

#[test]
fn credit_note_with_reason_and_negative_time() {
    let mut flow = OrderFlow::new();
    let note = CreditNote { customer_id: "bob".to_string(), amount: 0, reason: Some("late parcel".to_string()) };
    let events = flow.issue_credit_note(&note, -12).unwrap();
    assert_eq!(names(&events), vec!["PaymentConfirmed(credit_note_bob:0:-12)"]);
    let p = flow.payment("credit_note_bob:0:-12").unwrap();
    assert_eq!(p.memo.as_deref(), Some("Credit note: late parcel"));
    assert_eq!(p.created_at, -12);
}

#[test]
fn matcher_pays_oldest_first_and_stops_at_the_first_it_cannot_pay() {
    let mut flow = OrderFlow::new();
    flow.process_new_order(claimed_order("b", "c1", 30, 10, "W"), 100).unwrap();
    flow.process_new_order(claimed_order("a", "c1", 30, 10, "W"), 101).unwrap();
    flow.process_new_order(claimed_order("z", "c1", 50, 5, "W"), 102).unwrap();
    flow.process_new_order(claimed_order("big", "c1", 1000, 11, "W"), 103).unwrap();
    flow.process_new_order(claimed_order("small", "c1", 1, 12, "W"), 104).unwrap();
    flow.process_new_payment(payment("t1", "W", 115), 105).unwrap();
    let events = flow.confirm_payment("t1", 106).unwrap();
    assert_eq!(names(&events), vec!["PaymentConfirmed(t1)", "OrderPaid(z)", "OrderPaid(a)", "OrderPaid(b)"]);
    assert_eq!(flow.order("big").unwrap().status, OrderStatus::Claimed);
    assert_eq!(flow.order("small").unwrap().status, OrderStatus::Claimed);
    let account = flow.account(1).unwrap();
    assert_eq!(account.credits, 115);
    assert_eq!(account.debits, 110);
    assert_eq!(account.pending, 1001);
    assert_eq!(account.balance(), 5);
}

#[test]
fn new_claimed_order_is_paid_from_credit_at_hand() {
    let mut flow = OrderFlow::new();
    flow.process_new_payment(payment("t1", "W", 60), 0).unwrap();
    flow.confirm_payment("t1", 1).unwrap();
    let events = flow.process_new_order(claimed_order("A", "c1", 25, 2, "W"), 2).unwrap();
    assert_eq!(names(&events), vec!["OrderReceived(A)", "OrderPaid(A)"]);
    let account = flow.account(1).unwrap();
    assert_eq!((account.credits, account.debits, account.pending), (60, 25, 0));
}

#[test]
fn bad_signature_is_refused() {
    let mut flow = OrderFlow::new();
    flow.process_new_order(order("A", "c1", 100, 0), 0).unwrap();
    let bad = WalletClaim { address: "W".to_string(), verified: false };
    assert_eq!(flow.claim_order("A", &bad, 1).err(), Some(OrderFlowError::InvalidSignature));
    let mut o = order("B", "c1", 1, 0);
    o.claim = Some(WalletClaim { address: "W".to_string(), verified: false });
    assert_eq!(flow.process_new_order(o, 1).err(), Some(OrderFlowError::InvalidSignature));
    assert_eq!(flow.store().order_count(), 1);
    assert!(flow.store().account_for(tari_payment_engine::status::IdentityKind::WalletAddress, "W").is_none());
}

#[test]
fn unknown_ids_are_refused() {
    let mut flow = OrderFlow::new();
    assert_eq!(flow.claim_order("nope", &claim("W"), 0).err(), Some(OrderFlowError::OrderNotFound));
    assert_eq!(flow.cancel_order("nope", 0).err(), Some(OrderFlowError::OrderNotFound));
    assert_eq!(flow.reset_order("nope", 0).err(), Some(OrderFlowError::OrderNotFound));
    assert_eq!(flow.fulfil_order("nope").err(), Some(OrderFlowError::OrderNotFound));
    assert_eq!(flow.confirm_payment("nope", 0).err(), Some(OrderFlowError::PaymentNotFound));
    assert_eq!(flow.cancel_payment("nope").err(), Some(OrderFlowError::PaymentNotFound));
}

#[test]
fn terminal_statuses_are_dead_ends() {
    let mut flow = OrderFlow::new();
    flow.process_new_order(order("A", "c1", 10, 0), 0).unwrap();
    let events = flow.cancel_order("A", 1).unwrap();
    assert_eq!(names(&events), vec!["OrderCancelled(A)"]);
    assert_eq!(flow.account(1).unwrap().pending, 0);
    assert_eq!(flow.cancel_order("A", 2).err(), Some(OrderFlowError::InvalidTransition));
    assert_eq!(flow.claim_order("A", &claim("W"), 2).err(), Some(OrderFlowError::InvalidTransition));
    assert_eq!(flow.reset_order("A", 2).err(), Some(OrderFlowError::InvalidTransition));
    flow.process_new_payment(payment("t1", "W", 5), 3).unwrap();
    flow.confirm_payment("t1", 4).unwrap();
    assert_eq!(flow.confirm_payment("t1", 5).err(), Some(OrderFlowError::InvalidTransition));
    assert_eq!(flow.cancel_payment("t1").err(), Some(OrderFlowError::InvalidTransition));
    assert_eq!(flow.account(2).unwrap().credits, 5);
}

#[test]
fn cancelled_payment_never_counts() {
    let mut flow = OrderFlow::new();
    flow.process_new_order(claimed_order("A", "c1", 10, 0, "W"), 0).unwrap();
    flow.process_new_payment(payment("t1", "W", 10), 1).unwrap();
    assert!(flow.cancel_payment("t1").unwrap().is_empty());
    assert_eq!(flow.payment("t1").unwrap().status, TransferStatus::Cancelled);
    assert_eq!(flow.account(1).unwrap().credits, 0);
    assert_eq!(flow.order("A").unwrap().status, OrderStatus::Claimed);
}

#[test]
fn reset_puts_a_paid_order_back_unless_it_was_delivered() {
    let mut flow = OrderFlow::new();
    flow.process_new_order(claimed_order("A", "c1", 10, 0, "W"), 0).unwrap();
    flow.process_new_order(claimed_order("B", "c1", 20, 1, "W"), 1).unwrap();
    flow.process_new_payment(payment("t1", "W", 30), 2).unwrap();
    flow.confirm_payment("t1", 3).unwrap();
    assert!(flow.reset_order("A", 4).unwrap().is_empty());
    let a = flow.account(1).unwrap();
    assert_eq!((a.credits, a.debits, a.pending), (30, 20, 10));
    assert_eq!(flow.order("A").unwrap().status, OrderStatus::Claimed);
    assert_eq!(flow.fulfil_order("A").err(), Some(OrderFlowError::InvalidTransition));
    assert!(flow.fulfil_order("B").unwrap().is_empty());
    assert!(flow.order("B").unwrap().fulfilled);
    assert_eq!(flow.reset_order("B", 5).err(), Some(OrderFlowError::OrderModificationForbidden));
    assert_eq!(flow.order("B").unwrap().status, OrderStatus::Paid);
}

#[test]
fn claim_of_an_order_without_customer_moves_it_to_the_wallets_account() {
    let mut flow = OrderFlow::new();
    flow.process_new_payment(payment("t1", "W", 9), 0).unwrap();
    flow.confirm_payment("t1", 1).unwrap();
    let anonymous = NewOrder { order_id: "A".to_string(), customer_id: None, amount: 9, memo: None, created_at: 2, claim: None };
    flow.process_new_order(anonymous, 2).unwrap();
    assert_eq!(flow.order("A").unwrap().account_id, 2);
    assert_eq!(flow.account(2).unwrap().pending, 9);
    let events = flow.claim_order("A", &claim("W"), 3).unwrap();
    assert_eq!(names(&events), vec!["OrderPaid(A)"]);
    assert_eq!(flow.order("A").unwrap().account_id, 1);
    assert_eq!(flow.account(2).unwrap().pending, 0);
    let a = flow.account(1).unwrap();
    assert_eq!((a.credits, a.debits, a.pending), (9, 9, 0));
}

fn run(log: Vec<Entry>) -> OrderFlow {
    OrderFlow::replay(&log)
}

#[test]
fn confirmation_and_order_commute_on_values() {
    let setup = || {
        vec![
            Entry { at: 0, command: Command::NewOrder(claimed_order("old", "c1", 40, 0, "W")) },
            Entry { at: 1, command: Command::NewPayment(payment("t1", "W", 100)) },
        ]
    };
    let mut order_first = setup();
    order_first.push(Entry { at: 2, command: Command::NewOrder(claimed_order("new", "c1", 60, 2, "W")) });
    order_first.push(Entry { at: 3, command: Command::ConfirmPayment("t1".to_string()) });
    let mut payment_first = setup();
    payment_first.push(Entry { at: 2, command: Command::ConfirmPayment("t1".to_string()) });
    payment_first.push(Entry { at: 3, command: Command::NewOrder(claimed_order("new", "c1", 60, 2, "W")) });
    let a = run(order_first);
    let b = run(payment_first);
    assert_eq!(statuses(&a), statuses(&b));
    assert_eq!(statuses(&a), vec![("old".to_string(), OrderStatus::Paid), ("new".to_string(), OrderStatus::Paid)]);
    assert_eq!(a.account(1).unwrap().debits, 100);
    assert_eq!(b.account(1).unwrap().debits, 100);
}

#[test]
fn replay_reproduces_the_state() {
    let log = || {
        vec![
            Entry { at: 0, command: Command::NewOrder(order("A", "c1", 100, 0)) },
            Entry { at: 1, command: Command::ClaimOrder("A".to_string(), claim("W")) },
            Entry { at: 2, command: Command::NewPayment(payment("t1", "W", 150)) },
            Entry { at: 2, command: Command::NewPayment(payment("t1", "W", 150)) },
            Entry { at: 3, command: Command::ConfirmPayment("t1".to_string()) },
            Entry { at: 4, command: Command::NewOrder(order("B", "c2", 5, 4)) },
            Entry { at: 5, command: Command::CancelOrder("B".to_string()) },
            Entry { at: 6, command: Command::FulfilOrder("A".to_string()) },
            Entry { at: 7, command: Command::ResetOrder("A".to_string()) },
            Entry { at: 8, command: Command::IssueCredit(CreditNote { customer_id: "c2".to_string(), amount: 3, reason: None }) },
            Entry { at: 9, command: Command::CancelPayment("nope".to_string()) },
            Entry { at: 500, command: Command::Expire(100, 100) },
        ]
    };
    let mut live = OrderFlow::new();
    for e in log().iter() {
        let _ = live.execute(e);
    }
    let replayed = run(log());
    assert_eq!(statuses(&live), statuses(&replayed));
    assert_eq!(statuses(&live), vec![("A".to_string(), OrderStatus::Paid), ("B".to_string(), OrderStatus::Cancelled)]);
    for id in 1..=3 {
        assert_eq!(live.account(id), replayed.account(id));
    }
    assert_eq!(live.account(4), None);
    let a = live.account(1).unwrap();
    assert_eq!((a.credits, a.debits, a.pending), (150, 100, 0));
    assert_eq!(live.account(2).unwrap().credits, 3);
    assert_eq!(live.store().payment_count(), replayed.store().payment_count());
}

#[test]
fn sums_match_rows_on_values() {
    let mut flow = OrderFlow::new();
    flow.process_new_order(claimed_order("A", "c1", 10, 0, "W"), 0).unwrap();
    flow.process_new_order(order("B", "c1", 20, 1), 1).unwrap();
    flow.process_new_order(claimed_order("C", "c1", 40, 2, "W"), 2).unwrap();
    flow.process_new_payment(payment("t1", "W", 15), 3).unwrap();
    flow.process_new_payment(payment("t2", "W", 7), 3).unwrap();
    flow.confirm_payment("t1", 4).unwrap();
    let store = flow.store();
    let orders: Vec<_> = (0..store.order_count()).map(|i| store.order_at(i)).collect();
    let payments: Vec<_> = (0..store.payment_count()).map(|i| store.payment_at(i)).collect();
    let a = flow.account(1).unwrap();
    let paid: u128 = orders.iter().filter(|o| o.status == OrderStatus::Paid).map(|o| o.amount as u128).sum();
    let open: u128 = orders
        .iter()
        .filter(|o| o.status == OrderStatus::Unclaimed || o.status == OrderStatus::Claimed)
        .map(|o| o.amount as u128)
        .sum();
    let confirmed: u128 =
        payments.iter().filter(|p| p.status == TransferStatus::Confirmed).map(|p| p.amount as u128).sum();
    assert_eq!((a.debits, a.pending, a.credits), (paid, open, confirmed));
    assert_eq!((a.debits, a.pending, a.credits), (10, 60, 15));
    assert!(a.credits >= a.debits);
}

#[test]
fn terminal_orders_keep_amount_and_account() {
    let mut flow = OrderFlow::new();
    flow.process_new_order(claimed_order("P", "c1", 10, 0, "W"), 0).unwrap();
    flow.process_new_order(order("X", "c2", 20, 0), 0).unwrap();
    flow.process_new_order(order("E", "c3", 30, 0), 0).unwrap();
    flow.process_new_payment(payment("t1", "W", 10), 1).unwrap();
    flow.confirm_payment("t1", 2).unwrap();
    flow.cancel_order("X", 3).unwrap();
    flow.expire_orders(1000, 100, 100).unwrap();
    let before: Vec<_> =
        ["P", "X", "E"].iter().map(|id| flow.order(id).unwrap()).map(|o| (o.status, o.amount, o.account_id)).collect();
    assert_eq!(
        before,
        vec![(OrderStatus::Paid, 10, 1), (OrderStatus::Cancelled, 20, 2), (OrderStatus::Expired, 30, 3)]
    );
    let log = vec![
        Entry { at: 2000, command: Command::ClaimOrder("X".to_string(), claim("W")) },
        Entry { at: 2001, command: Command::ClaimOrder("E".to_string(), claim("V")) },
        Entry { at: 2002, command: Command::CancelOrder("P".to_string()) },
        Entry { at: 2003, command: Command::NewOrder(order("P", "c9", 999, 7)) },
        Entry { at: 2004, command: Command::NewOrder(order("X", "c9", 999, 7)) },
        Entry { at: 2005, command: Command::Expire(0, 0) },
        Entry { at: 2006, command: Command::IssueCredit(CreditNote { customer_id: "c2".to_string(), amount: 500, reason: None }) },
        Entry { at: 2007, command: Command::FulfilOrder("P".to_string()) },
        Entry { at: 2008, command: Command::ResetOrder("X".to_string()) },
    ];
    for e in log.iter() {
        let _ = flow.execute(e);
    }
    let after: Vec<_> =
        ["P", "X", "E"].iter().map(|id| flow.order(id).unwrap()).map(|o| (o.status, o.amount, o.account_id)).collect();
    assert_eq!(after, before);
    assert_eq!(flow.store().order_count(), 3);
}

#[test]
fn refused_commands_change_nothing() {
    let mut flow = OrderFlow::new();
    flow.process_new_order(order("A", "c1", 10, 0), 0).unwrap();
    flow.process_new_payment(payment("t1", "W", 10), 1).unwrap();
    let snapshot = |f: &OrderFlow| {
        (
            f.store().account_count(),
            f.store().order_count(),
            f.store().payment_count(),
            f.account(1),
            f.account(2),
            f.order("A").map(|o| (o.status, o.account_id, o.updated_at)),
            f.payment("t1").map(|p| p.status),
        )
    };
    let before = snapshot(&flow);
    let refused = vec![
        Entry { at: 5, command: Command::ClaimOrder("A".to_string(), claim("W")) },
        Entry { at: 5, command: Command::ClaimOrder("A".to_string(), WalletClaim { address: "new".to_string(), verified: false }) },
        Entry { at: 5, command: Command::ConfirmPayment("t0".to_string()) },
        Entry { at: 5, command: Command::CancelPayment("t0".to_string()) },
        Entry { at: 5, command: Command::ResetOrder("A".to_string()) },
        Entry { at: 5, command: Command::FulfilOrder("A".to_string()) },
        Entry { at: 5, command: Command::CancelOrder("B".to_string()) },
    ];
    for e in refused.iter() {
        assert!(flow.execute(e).is_err());
        assert_eq!(snapshot(&flow), before);
    }
}
