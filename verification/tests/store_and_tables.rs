use tari_payment_engine::database::{AccountManagement, PaymentGatewayDatabase};
use tari_payment_engine::errors::PaymentGatewayError;
use tari_payment_engine::events::{on_full_queue, Backpressure, Event, EventBus};
use tari_payment_engine::flow::OrderFlow;
use tari_payment_engine::outcome::{InsertOrderResult, InsertPaymentResult, OrderFlowError};
use tari_payment_engine::peers::{is_whitelisted, IpAddress};
use tari_payment_engine::profile::{default_server_address, default_server_url, Profile, ProfileError, Role, SecretKey};
use tari_payment_engine::records::{Account, CreditNote, NewOrder, NewPayment, Order, Payment, WalletClaim};
use tari_payment_engine::status::{IdentityKind, OrderStatus, PaymentType, TransferStatus};
use tari_payment_engine::store::Store;
use tari_payment_engine::transfers::{
    credit_note, credit_note_at, fetch_payment, fetch_payments_for_address, fetch_payments_for_order,
    idempotent_insert, pending_payments, sort_by_time, update_status,
};

fn row(id: &str, account: i64, amount: u64, status: OrderStatus, created_at: i64) -> Order {
    Order {
        order_id: id.to_string(),
        customer_id: None,
        account_id: account,
        amount,
        memo: None,
        status,
        created_at,
        updated_at: created_at,
        fulfilled: false,
    }
}

fn transfer(txid: &str, sender: &str, amount: u64, order_id: Option<&str>) -> NewPayment {
    NewPayment {
        txid: txid.to_string(),
        sender: sender.to_string(),
        amount,
        memo: None,
        order_id: order_id.map(|s| s.to_string()),
    }
}

fn payment_row(txid: &str, created_at: i64) -> Payment {
    Payment {
        txid: txid.to_string(),
        sender: "W".to_string(),
        account_id: 1,
        amount: 1,
        memo: None,
        order_id: None,
        payment_type: PaymentType::OnChain,
        status: TransferStatus::Received,
        created_at,
    }
}

#[test]
fn accounts_are_found_or_created() {
    let mut store = Store::new();
    assert_eq!(store.fetch_or_create_account(Some("c1"), None, 5), Ok(1));
    assert_eq!(store.fetch_or_create_account(Some("c1"), None, 6), Ok(1));
    assert_eq!(store.fetch_or_create_account(Some("c1"), Some("W1"), 7), Ok(1));
    assert_eq!(store.account_for(IdentityKind::WalletAddress, "W1"), Some(1));
    assert_eq!(store.account_for(IdentityKind::CustomerId, "W1"), None);
    assert_eq!(store.fetch_or_create_account(None, Some("W2"), 8), Ok(2));
    assert_eq!(store.fetch_or_create_account(Some("c1"), Some("W2"), 9), Err(OrderFlowError::IdentityConflict));
    assert_eq!(store.fetch_or_create_account(Some("c2"), Some("W2"), 9), Ok(2));
    assert_eq!(store.account_for(IdentityKind::CustomerId, "c2"), Some(2));
    assert_eq!(store.fetch_or_create_account(None, None, 10), Ok(3));
    assert_eq!(store.account_count(), 3);
    assert_eq!(
        store.account(1),
        Some(Account { id: 1, credits: 0, debits: 0, pending: 0, created_at: 5, updated_at: 5 })
    );
    assert_eq!(store.account(0), None);
    assert_eq!(store.account(4), None);
}

#[test]
fn orders_are_inserted_once() {
    let mut store = Store::new();
    assert_eq!(store.insert_order_idempotent(row("a", 1, 5, OrderStatus::Unclaimed, 0)), Ok(InsertOrderResult::Inserted(1)));
    assert_eq!(store.insert_order_idempotent(row("b", 1, 6, OrderStatus::Unclaimed, 0)), Ok(InsertOrderResult::Inserted(2)));
    assert_eq!(
        store.insert_order_idempotent(row("a", 9, 99, OrderStatus::Paid, 3)),
        Ok(InsertOrderResult::AlreadyExists(1))
    );
    assert_eq!(store.order_count(), 2);
    assert_eq!(store.order("a").unwrap().amount, 5);
    assert!(store.has_order("b"));
    assert!(!store.has_order("c"));
    assert_eq!(store.order_row("b"), Some(1));
}

#[test]
fn payments_are_inserted_once() {
    let mut store = Store::new();
    assert!(matches!(store.insert_payment_idempotent(payment_row("t1", 0)), Ok(InsertPaymentResult::Inserted(t)) if t == "t1"));
    assert!(matches!(store.insert_payment_idempotent(payment_row("t1", 9)), Ok(InsertPaymentResult::AlreadyExists(t)) if t == "t1"));
    assert_eq!(store.payment_count(), 1);
    assert_eq!(store.payment("t1").unwrap().created_at, 0);
    assert_eq!(store.payment_row("t1"), Some(0));
    assert!(store.has_payment("t1"));
}

#[test]
fn payment_status_changes_once() {
    let mut store = Store::new();
    store.insert_payment_idempotent(payment_row("t1", 0)).unwrap();
    assert_eq!(store.update_payment_status("zz", TransferStatus::Confirmed), Err(OrderFlowError::PaymentNotFound));
    assert_eq!(store.update_payment_status("t1", TransferStatus::Received), Ok(None));
    assert_eq!(store.update_payment_status("t1", TransferStatus::Confirmed), Ok(Some(1)));
    assert_eq!(store.update_payment_status("t1", TransferStatus::Confirmed), Err(OrderFlowError::InvalidTransition));
    assert_eq!(store.update_payment_status("t1", TransferStatus::Cancelled), Err(OrderFlowError::InvalidTransition));
    assert_eq!(store.payment("t1").unwrap().status, TransferStatus::Confirmed);
}

#[test]
fn order_status_follows_the_lifecycle() {
    let (new, unclaimed, claimed, paid, cancelled, expired) = (
        OrderStatus::New,
        OrderStatus::Unclaimed,
        OrderStatus::Claimed,
        OrderStatus::Paid,
        OrderStatus::Cancelled,
        OrderStatus::Expired,
    );
    let all = [new, unclaimed, claimed, paid, cancelled, expired];
    let edges = [
        (new, unclaimed),
        (unclaimed, claimed),
        (unclaimed, cancelled),
        (unclaimed, expired),
        (claimed, paid),
        (claimed, cancelled),
        (claimed, expired),
    ];
    for from in all {
        for to in all {
            let mut store = Store::new();
            store.insert_order_idempotent(row("a", 1, 5, from, 0)).unwrap();
            let r = store.set_order_status("a", to, 44);
            if edges.contains(&(from, to)) {
                assert_eq!(r, Ok(()));
                assert_eq!(store.order("a").unwrap().status, to);
                assert_eq!(store.order("a").unwrap().updated_at, 44);
            } else {
                assert_eq!(r, Err(OrderFlowError::InvalidTransition));
                assert_eq!(store.order("a").unwrap().status, from);
                assert_eq!(store.order("a").unwrap().updated_at, 0);
            }
            assert_eq!(from.allows(to), edges.contains(&(from, to)));
        }
        assert_eq!(from.terminal(), from == paid || from == cancelled || from == expired);
        assert_eq!(from.open(), from == unclaimed || from == claimed);
    }
    let mut store = Store::new();
    assert_eq!(store.set_order_status("a", claimed, 0), Err(OrderFlowError::OrderNotFound));
}

#[test]
fn accounts_are_adjusted_within_their_invariants() {
    let mut store = Store::new();
    store.fetch_or_create_account(Some("c"), None, 0).unwrap();
    assert_eq!(store.adjust_account(1, 100, 0, 30, 1), Ok(()));
    assert_eq!(store.adjust_account(1, 0, 40, -10, 2), Ok(()));
    let a = store.account(1).unwrap();
    assert_eq!((a.credits, a.debits, a.pending, a.updated_at), (100, 40, 20, 2));
    assert_eq!(a.balance(), 60);
    assert_eq!(store.adjust_account(1, 0, 61, 0, 3), Err(OrderFlowError::InsufficientFunds));
    assert_eq!(store.adjust_account(1, -61, 0, 0, 3), Err(OrderFlowError::InsufficientFunds));
    assert_eq!(store.adjust_account(1, 0, 0, -21, 3), Err(OrderFlowError::InsufficientFunds));
    assert_eq!(store.adjust_account(1, -101, 0, 0, 3), Err(OrderFlowError::InsufficientFunds));
    assert_eq!(store.adjust_account(1, i128::MIN, 0, 0, 3), Err(OrderFlowError::InsufficientFunds));
    assert_eq!(store.adjust_account(2, 1, 0, 0, 3), Err(OrderFlowError::AccountNotFound));
    assert_eq!(store.adjust_account(0, 1, 0, 0, 3), Err(OrderFlowError::AccountNotFound));
    assert_eq!(store.account(1).unwrap(), a);
    assert_eq!(store.adjust_account(1, i128::MAX, 0, 0, 4), Ok(()));
    assert_eq!(store.account(1).unwrap().credits, 100 + (i128::MAX as u128));
    assert_eq!(store.adjust_account(1, i128::MAX, 0, 0, 5), Err(OrderFlowError::OutOfRange));
    assert_eq!(store.adjust_account(1, i128::MAX - 101, 0, 0, 6), Ok(()));
    assert_eq!(store.account(1).unwrap().credits, u128::MAX - 2);
    assert_eq!(store.adjust_account(1, 3, 0, 0, 7), Err(OrderFlowError::OutOfRange));
    let unsound = Account { id: 1, credits: 1, debits: 2, pending: 0, created_at: 0, updated_at: 0 };
    assert_eq!(unsound.balance(), 0);
}

#[test]
fn first_claimed_is_the_oldest_and_then_the_smallest_id() {
    let mut store = Store::new();
    assert_eq!(store.first_claimed(1), None);
    store.insert_order_idempotent(row("m", 1, 5, OrderStatus::Claimed, 10)).unwrap();
    store.insert_order_idempotent(row("k", 1, 5, OrderStatus::Claimed, 10)).unwrap();
    store.insert_order_idempotent(row("a", 2, 5, OrderStatus::Claimed, 1)).unwrap();
    store.insert_order_idempotent(row("b", 1, 5, OrderStatus::Unclaimed, 1)).unwrap();
    assert_eq!(store.first_claimed(1), Some(1));
    store.insert_order_idempotent(row("z", 1, 5, OrderStatus::Claimed, 9)).unwrap();
    assert_eq!(store.first_claimed(1), Some(4));
    assert_eq!(store.first_claimed(2), Some(2));
    assert_eq!(store.first_claimed(3), None);
}

#[test]
fn reassign_reopen_and_fulfil() {
    let mut store = Store::new();
    store.fetch_or_create_account(Some("c"), None, 0).unwrap();
    store.insert_order_idempotent(row("a", 1, 5, OrderStatus::Paid, 0)).unwrap();
    store.insert_order_idempotent(row("b", 1, 5, OrderStatus::Unclaimed, 0)).unwrap();
    assert_eq!(store.reassign_order("a", 1), Err(OrderFlowError::InvalidTransition));
    assert_eq!(store.reassign_order("b", 2), Err(OrderFlowError::AccountNotFound));
    assert_eq!(store.reassign_order("x", 1), Err(OrderFlowError::OrderNotFound));
    assert_eq!(store.reassign_order("b", 1), Ok(()));
    assert_eq!(store.reopen_order("b", 1), Err(OrderFlowError::InvalidTransition));
    assert_eq!(store.mark_fulfilled("b"), Err(OrderFlowError::InvalidTransition));
    assert_eq!(store.reopen_order("a", 7), Ok(()));
    assert_eq!(store.order("a").unwrap().status, OrderStatus::Claimed);
    assert_eq!(store.order("a").unwrap().updated_at, 7);
    let copy = store.copy();
    assert_eq!(copy.order_count(), 2);
    assert_eq!(copy.order("a").unwrap().status, OrderStatus::Claimed);
    assert_eq!(copy.account_for(IdentityKind::CustomerId, "c"), Some(1));
}

#[test]
fn database_transactions() {
    let mut db = OrderFlow::new();
    let o = NewOrder { order_id: "A".to_string(), customer_id: Some("c1".to_string()), amount: 30, memo: None, created_at: 0, claim: Some(WalletClaim { address: "W".to_string(), verified: true }) };
    assert_eq!(db.process_new_order_for_customer(o.copy(), 0), Ok(1));
    assert_eq!(db.process_new_order_for_customer(o.copy(), 5), Ok(1));
    assert_eq!(db.account(1).unwrap().pending, 30);
    assert_eq!(db.process_new_payment_for_pubkey(transfer("t1", "W", 50, None), 1), Ok(1));
    assert_eq!(db.process_new_payment_for_pubkey(transfer("t1", "W", 50, None), 2), Ok(1));
    assert_eq!(db.process_new_payment_for_pubkey(transfer("t2", "V", 5, None), 2), Ok(2));
    assert_eq!(PaymentGatewayDatabase::fetch_or_create_account(&mut db, Some(o.copy()), Some(transfer("t9", "V", 1, None)), 3), Err(OrderFlowError::IdentityConflict));
    assert_eq!(PaymentGatewayDatabase::fetch_or_create_account(&mut db, Some(o.copy()), None, 3), Ok(1));
    assert!(db.fetch_payable_orders(1).unwrap().is_empty());
    assert_eq!(PaymentGatewayDatabase::update_payment_status(&mut db, "t1", TransferStatus::Confirmed, 4), Ok(Some(1)));
    assert_eq!(db.account(1).unwrap().credits, 50);
    assert_eq!(db.order("A").unwrap().status, OrderStatus::Claimed);
    let payable = db.fetch_payable_orders(1).unwrap();
    assert_eq!(payable.len(), 1);
    assert_eq!(payable[0].order_id, "A");
    assert_eq!(payable[0].status, OrderStatus::Claimed);
    assert!(db.fetch_payable_orders(7).unwrap().is_empty());
    assert!(db.try_pay_orders(2, &payable, 5).unwrap().is_empty());
    let paid = db.try_pay_orders(1, &payable, 5).unwrap();
    assert_eq!(paid.len(), 1);
    assert_eq!(paid[0].status, OrderStatus::Paid);
    assert_eq!(paid[0].updated_at, 5);
    assert!(db.try_pay_orders(1, &payable, 6).unwrap().is_empty());
    let a = db.account(1).unwrap();
    assert_eq!((a.credits, a.debits, a.pending), (50, 30, 0));
    assert_eq!(db.close(), Ok(()));
    assert_eq!(db.fetch_user_account(1), Ok(Some(a)));
    assert_eq!(db.fetch_user_account(3), Ok(None));
    assert_eq!(db.fetch_user_account_for_order("A"), Ok(Some(a)));
    assert_eq!(db.fetch_user_account_for_order("B"), Ok(None));
    assert_eq!(db.fetch_user_account_for_customer_id("c1"), Ok(Some(a)));
    assert_eq!(db.fetch_user_account_for_customer_id("W"), Ok(None));
    assert_eq!(db.fetch_user_account_for_pubkey("W"), Ok(Some(a)));
    assert_eq!(db.fetch_user_account_for_pubkey("V").unwrap().unwrap().id, 2);
}

#[test]
fn transfers_are_inserted_once() {
    let mut conn = OrderFlow::new();
    let p = idempotent_insert(transfer("t1", "W", 10, Some("o1")), &mut conn, 3).unwrap();
    assert_eq!((p.txid.as_str(), p.sender.as_str(), p.amount, p.status, p.created_at, p.account_id), ("t1", "W", 10, TransferStatus::Received, 3, 1));
    assert_eq!(p.order_id.as_deref(), Some("o1"));
    let again = idempotent_insert(transfer("t1", "W", 10, Some("o1")), &mut conn, 4);
    assert!(matches!(again, Err(PaymentGatewayError::PaymentAlreadyExists(t)) if t == "t1"));
    assert_eq!(conn.store().payment_count(), 1);
}

#[test]
fn transfer_status_updates() {
    let mut conn = OrderFlow::new();
    idempotent_insert(transfer("t1", "W", 10, None), &mut conn, 0).unwrap();
    let missing = update_status("t0", TransferStatus::Confirmed, &mut conn, 1);
    assert!(matches!(&missing, Err(PaymentGatewayError::PaymentStatusUpdateError(m)) if m == "Payment for t0 does not exist"));
    assert_eq!(missing.unwrap_err().message(), "Could not update the payment status. Payment for t0 does not exist");
    let p = update_status("t1", TransferStatus::Confirmed, &mut conn, 1).unwrap();
    assert_eq!(p.status, TransferStatus::Confirmed);
    assert_eq!(conn.account(1).unwrap().credits, 10);
    assert!(matches!(update_status("t1", TransferStatus::Cancelled, &mut conn, 2), Err(PaymentGatewayError::InvalidTransition)));
    assert!(fetch_payment("t0", &conn).unwrap().is_none());
    assert_eq!(fetch_payment("t1", &conn).unwrap().unwrap().status, TransferStatus::Confirmed);
}

#[test]
fn transfers_are_listed() {
    let mut conn = OrderFlow::new();
    idempotent_insert(transfer("t1", "W", 1, Some("o1")), &mut conn, 30).unwrap();
    idempotent_insert(transfer("t2", "V", 2, Some("o1")), &mut conn, 20).unwrap();
    idempotent_insert(transfer("t3", "W", 3, None), &mut conn, 10).unwrap();
    idempotent_insert(transfer("t4", "W", 4, Some("o2")), &mut conn, 20).unwrap();
    idempotent_insert(transfer("t5", "W", 5, None), &mut conn, 10).unwrap();
    update_status("t4", TransferStatus::Confirmed, &mut conn, 40).unwrap();
    let ids = |v: Vec<Payment>| v.into_iter().map(|p| p.txid).collect::<Vec<_>>();
    assert_eq!(ids(fetch_payments_for_address("W", &conn).unwrap()), vec!["t1", "t3", "t4", "t5"]);
    assert_eq!(ids(fetch_payments_for_address("V", &conn).unwrap()), vec!["t2"]);
    assert!(fetch_payments_for_address("U", &conn).unwrap().is_empty());
    assert_eq!(ids(pending_payments("W", &conn).unwrap()), vec!["t3", "t5", "t1"]);
    assert_eq!(ids(fetch_payments_for_order("o1", &conn).unwrap()), vec!["t1", "t2"]);
    assert!(fetch_payments_for_order("o3", &conn).unwrap().is_empty());
    let sorted = sort_by_time(vec![payment_row("a", 3), payment_row("b", 1), payment_row("c", 3), payment_row("d", 2), payment_row("e", 1)]);
    assert_eq!(ids(sorted), vec!["b", "e", "d", "a", "c"]);
}

#[test]
fn credit_notes_as_transfers() {
    let mut conn = OrderFlow::new();
    let note = CreditNote { customer_id: "c1".to_string(), amount: 50, reason: Some("gift".to_string()) };
    let p = credit_note_at(&note, 1234, &mut conn).unwrap();
    assert_eq!(p.txid, "credit_note_c1:50:1234");
    assert_eq!(p.status, TransferStatus::Confirmed);
    assert_eq!(p.payment_type, PaymentType::Manual);
    assert_eq!(p.memo.as_deref(), Some("Credit note: gift"));
    assert!(matches!(credit_note_at(&note, 1234, &mut conn), Err(PaymentGatewayError::PaymentAlreadyExists(t)) if t == "credit_note_c1:50:1234"));
    assert_eq!(conn.account(1).unwrap().credits, 50);
    let now = credit_note(&note, &mut conn).unwrap();
    assert!(now.txid.starts_with("credit_note_c1:50:"));
    assert!(now.created_at > 1_600_000_000);
    assert_eq!(now.txid, format!("credit_note_c1:50:{}", now.created_at));
    assert_eq!(conn.account(1).unwrap().credits, 100);
}

#[test]
fn whitelist() {
    let a = IpAddress::V4(0x7f000001);
    let b = IpAddress::V4(0x0a000001);
    let c = IpAddress::V6(1);
    assert!(is_whitelisted(Some(a), &None));
    assert!(is_whitelisted(None, &None));
    assert!(!is_whitelisted(None, &Some(vec![a])));
    assert!(is_whitelisted(Some(a), &Some(vec![b, a])));
    assert!(!is_whitelisted(Some(c), &Some(vec![b, a])));
    assert!(!is_whitelisted(Some(IpAddress::V6(0x7f000001)), &Some(vec![a])));
    assert!(!is_whitelisted(Some(a), &Some(vec![])));
}

#[test]
fn server_addresses() {
    assert_eq!(default_server_address(None, None, None), "http://localhost:4444");
    assert_eq!(default_server_address(Some("https"), None, None), "https://localhost:4444");
    assert_eq!(default_server_address(None, Some("example.com"), None), "http://example.com");
    assert_eq!(default_server_address(None, None, Some("8080")), "http://localhost:8080");
    assert_eq!(default_server_address(Some("https"), Some("example.com"), Some("8443")), "https://example.com:8443");
    assert_eq!(default_server_url(None, None, None).unwrap(), "http://localhost:4444");
    assert!(matches!(default_server_url(None, None, Some("port")), Err(ProfileError::UrlParseError)));
    assert_eq!(Profile::server_url_for("https://Sub.Example.com:8443/path").unwrap(), "sub.example.com");
    assert_eq!(Profile::server_url_for("http://127.0.0.1").unwrap(), "127.0.0.1");
    assert!(matches!(Profile::server_url_for("not a url"), Err(ProfileError::UrlParseError)));
    assert!(matches!(Profile::server_url_for("data:text/plain,Stuff"), Err(ProfileError::InvalidServerUrl(s)) if s == "data:text/plain,Stuff"));
}

#[test]
fn secret_keys() {
    let mut profile = Profile::with_server("addr".to_string(), "http://localhost:4444".to_string());
    assert_eq!(profile.name, "default");
    assert_eq!(profile.roles, vec![Role::User]);
    assert!(profile.secret_key(None).is_none());
    let hex = "0100000000000000000000000000000000000000000000000000000000000000";
    assert!(profile.secret_key(Some(hex)).is_none());
    profile.secret_key_envar = Some("TPG_KEY".to_string());
    assert!(profile.secret_key(None).is_none());
    assert!(profile.secret_key(Some("zz")).is_none());
    assert!(profile.secret_key(Some("0100")).is_none());
    let key = profile.secret_key(Some(hex)).unwrap();
    assert_eq!(key.bytes.len(), 32);
    assert_eq!(key.bytes[0], 1);
    assert!(key.bytes[1..].iter().all(|b| *b == 0));
    profile.secret_key = Some(SecretKey { bytes: vec![7; 32] });
    assert_eq!(profile.secret_key(Some(hex)).unwrap().bytes, vec![7; 32]);
}

#[test]
fn bus_keeps_order_and_bounds() {
    let mut bus = EventBus::new(2);
    let fast = bus.subscribe();
    let slow = bus.subscribe();
    assert_eq!((fast, slow), (0, 1));
    let e = |s: &str| Event::OrderPaid(s.to_string());
    assert!(bus.publish(&e("1")).is_empty());
    assert!(bus.publish(&e("2")).is_empty());
    assert!(matches!(bus.take(fast), Some(Event::OrderPaid(s)) if s == "1"));
    assert_eq!(bus.publish(&e("3")), vec![slow]);
    assert_eq!((bus.waiting(fast), bus.waiting(slow), bus.waiting(9)), (2, 2, 0));
    assert!(!bus.offer(slow, &e("3")));
    assert!(!bus.offer(9, &e("3")));
    assert!(matches!(bus.take(slow), Some(Event::OrderPaid(s)) if s == "1"));
    assert!(bus.offer(slow, &e("3")));
    for expected in ["2", "3"] {
        assert!(matches!(bus.take(fast), Some(Event::OrderPaid(s)) if s == expected));
        assert!(matches!(bus.take(slow), Some(Event::OrderPaid(s)) if s == expected));
    }
    assert!(bus.take(fast).is_none());
    assert!(bus.take(7).is_none());
    assert_eq!(on_full_queue(4999, 5000), Backpressure::Wait);
    assert_eq!(on_full_queue(5000, 5000), Backpressure::Drop);
}
