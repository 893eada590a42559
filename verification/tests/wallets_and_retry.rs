use tari_payment_engine::errors::{AccountApiError, PaymentGatewayError};
use tari_payment_engine::flow::{due, make_credit_note_memo, make_credit_note_txid, make_dummy_address, OrderFlow};
use tari_payment_engine::matcher::{comes_first, pay_orders};
use tari_payment_engine::profile::{Role, SecretKey};
use tari_payment_engine::records::{CreditNote, NewPayment, Order, Payment};
use tari_payment_engine::retry::{next_attempt, Retry, DEFAULT_ATTEMPTS};
use tari_payment_engine::status::{OrderStatus, PaymentType, TransferStatus};
use tari_payment_engine::store::Store;
use tari_payment_engine::wallets::AuthorizedWallets;

fn stored(id: &str, status: OrderStatus, created_at: i64, updated_at: i64, amount: u64) -> Order {
    Order {
        order_id: id.to_string(),
        customer_id: None,
        account_id: 1,
        amount,
        memo: None,
        status,
        created_at,
        updated_at,
        fulfilled: false,
    }
}

#[test]
fn wallets_are_authorized_once() {
    let mut wallets = AuthorizedWallets::new();
    assert!(!wallets.is_authorized("W"));
    assert_eq!(wallets.role_of("W"), None);
    wallets.authorize("W", Role::Write);
    wallets.authorize("V", Role::ReadAll);
    assert_eq!(wallets.count(), 2);
    assert_eq!(wallets.role_of("W"), Some(Role::Write));
    wallets.authorize("W", Role::SuperAdmin);
    assert_eq!(wallets.count(), 2);
    assert_eq!(wallets.role_of("W"), Some(Role::SuperAdmin));
    assert_eq!(wallets.role_of("V"), Some(Role::ReadAll));
    assert!(wallets.revoke("W"));
    assert!(!wallets.revoke("W"));
    assert!(!wallets.is_authorized("W"));
    assert!(wallets.is_authorized("V"));
    assert_eq!(wallets.count(), 1);
}

#[test]
fn transient_failures_are_retried_with_growing_delays() {
    let db = PaymentGatewayError::DatabaseError("locked".to_string());
    assert_eq!(DEFAULT_ATTEMPTS, 5);
    assert_eq!(next_attempt(&db, 0, 5, 100), Retry::After(0));
    assert_eq!(next_attempt(&db, 1, 5, 100), Retry::After(100));
    assert_eq!(next_attempt(&db, 2, 5, 100), Retry::After(200));
    assert_eq!(next_attempt(&db, 3, 5, 100), Retry::After(400));
    assert_eq!(next_attempt(&db, 4, 5, 100), Retry::After(800));
    assert_eq!(next_attempt(&db, 5, 5, 100), Retry::GiveUp);
    assert_eq!(next_attempt(&db, 6, 5, 100), Retry::GiveUp);
    assert_eq!(next_attempt(&db, 70, 100, 1), Retry::After(u64::MAX));
    assert_eq!(next_attempt(&db, 64, 100, 1), Retry::After(1 << 63));
    assert_eq!(next_attempt(&db, 65, 100, 1), Retry::After(u64::MAX));
    assert_eq!(next_attempt(&db, 3, 5, 0), Retry::After(0));
    assert_eq!(next_attempt(&db, 2, 5, u64::MAX), Retry::After(u64::MAX));
    assert_eq!(next_attempt(&PaymentGatewayError::InvalidSignature, 1, 5, 100), Retry::GiveUp);
    assert_eq!(
        next_attempt(&PaymentGatewayError::AccountError(AccountApiError::DatabaseError("x".to_string())), 1, 5, 100),
        Retry::GiveUp
    );
}

#[test]
fn pending_credit_counts_what_is_received_only() {
    let mut flow = OrderFlow::new();
    let pay = |txid: &str, sender: &str, amount: u64| NewPayment {
        txid: txid.to_string(),
        sender: sender.to_string(),
        amount,
        memo: None,
        order_id: None,
    };
    flow.process_new_payment(pay("t1", "W", 10), 0).unwrap();
    flow.process_new_payment(pay("t2", "W", 20), 0).unwrap();
    flow.process_new_payment(pay("t3", "W", 40), 0).unwrap();
    flow.process_new_payment(pay("t4", "V", 80), 0).unwrap();
    assert_eq!(flow.pending_credit(1), 70);
    flow.confirm_payment("t1", 1).unwrap();
    flow.cancel_payment("t2").unwrap();
    assert_eq!(flow.pending_credit(1), 40);
    assert_eq!(flow.pending_credit(2), 80);
    assert_eq!(flow.pending_credit(3), 0);
    assert_eq!(flow.account(1).unwrap().credits, 10);
}

#[test]
fn keys_are_read_from_hexadecimal() {
    assert!(SecretKey::from_hex("").is_none());
    assert!(SecretKey::from_hex("xyz").is_none());
    let two = SecretKey::from_hex("0200000000000000000000000000000000000000000000000000000000000000").unwrap();
    assert_eq!(two.bytes[0], 2);
    assert_eq!(two.copy().bytes, two.bytes);
    assert!(SecretKey::from_hex("ffffffffffffffffffffffffffffffffffffffffffffffffffffffffffffffff").is_none());
}

#[test]
fn orders_fall_due_after_their_timeout() {
    let unclaimed = stored("a", OrderStatus::Unclaimed, 0, 100, 1);
    let claimed = stored("a", OrderStatus::Claimed, 0, 100, 1);
    let paid = stored("a", OrderStatus::Paid, 0, 100, 1);
    assert!(!due(&unclaimed, 110, 10, 0));
    assert!(due(&unclaimed, 111, 10, 0));
    assert!(!due(&claimed, 111, 10, 11));
    assert!(due(&claimed, 112, 10, 11));
    assert!(!due(&paid, i64::MAX, 0, 0));
    assert!(!due(&claimed, i64::MIN, 0, 0));
    assert!(due(&stored("a", OrderStatus::Claimed, 0, i64::MIN, 1), i64::MAX, 0, u64::MAX - 1));
    assert!(!due(&stored("a", OrderStatus::Claimed, 0, i64::MIN, 1), i64::MAX, 0, u64::MAX));
}

#[test]
fn the_matcher_takes_orders_by_age_and_then_by_id() {
    let a = stored("a", OrderStatus::Claimed, 5, 0, 1);
    let b = stored("b", OrderStatus::Claimed, 5, 0, 1);
    let old = stored("z", OrderStatus::Claimed, 4, 0, 1);
    assert!(comes_first(&a, &b));
    assert!(!comes_first(&b, &a));
    assert!(!comes_first(&a, &a));
    assert!(comes_first(&old, &a));
    assert!(!comes_first(&a, &old));
}

fn confirmed(txid: &str, amount: u64) -> Payment {
    Payment {
        txid: txid.to_string(),
        sender: "W".to_string(),
        account_id: 1,
        amount,
        memo: None,
        order_id: None,
        payment_type: PaymentType::OnChain,
        status: TransferStatus::Confirmed,
        created_at: 0,
    }
}

#[test]
fn the_matcher_on_a_store() {
    let mut store = Store::new();
    store.fetch_or_create_account(Some("c"), Some("W"), 0).unwrap();
    store.insert_order_idempotent(stored("x", OrderStatus::Claimed, 2, 2, 30)).unwrap();
    store.insert_order_idempotent(stored("y", OrderStatus::Claimed, 1, 1, 30)).unwrap();
    store.insert_order_idempotent(stored("u", OrderStatus::Unclaimed, 0, 0, 5)).unwrap();
    store.insert_payment_idempotent(confirmed("t1", 50)).unwrap();
    store.adjust_account(1, 50, 0, 65, 3).unwrap();
    let paid = pay_orders(&mut store, 1, 9);
    assert_eq!(paid.len(), 1);
    assert_eq!(paid[0].order_id, "y");
    assert_eq!(paid[0].status, OrderStatus::Paid);
    assert_eq!(paid[0].updated_at, 9);
    let a = store.account(1).unwrap();
    assert_eq!((a.credits, a.debits, a.pending), (50, 30, 35));
    assert!(pay_orders(&mut store, 1, 10).is_empty());
    store.insert_payment_idempotent(confirmed("t2", 10)).unwrap();
    store.adjust_account(1, 10, 0, 0, 11).unwrap();
    let paid = pay_orders(&mut store, 1, 12);
    assert_eq!(paid.len(), 1);
    assert_eq!(paid[0].order_id, "x");
    assert_eq!(store.order("u").unwrap().status, OrderStatus::Unclaimed);
    assert_eq!(store.account(1).unwrap().balance(), 0);
}

#[test]
fn credit_note_texts() {
    let note = CreditNote { customer_id: "alice".to_string(), amount: 18446744073709551615, reason: None };
    assert_eq!(make_credit_note_txid(&note, 0), "credit_note_alice:18446744073709551615:0");
    assert_eq!(make_credit_note_txid(&note, i64::MIN), "credit_note_alice:18446744073709551615:-9223372036854775808");
    assert_eq!(make_dummy_address("alice"), "dummy_alice");
    assert_eq!(make_dummy_address(""), "dummy_");
    assert_eq!(make_credit_note_memo(&note), "Credit note: No reason given");
}
