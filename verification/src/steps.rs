//! The steps of the engine as functions on the state, and the proof that
//! each of them keeps the state sound.

use vstd::prelude::*;
use crate::events::EventView;
use crate::events::paid_events;
use crate::ledger::Ledger;
use crate::ledger::link_position_is_unique;
use crate::ledger::order_position_is_unique;
use crate::ledger::payment_position_is_unique;
use crate::matcher::settle;
use crate::matcher::settled;
use crate::matcher::settle_properties;
use crate::outcome::OrderFlowError;
use crate::records::Account;
use crate::records::LinkView;
use crate::records::NewOrderView;
use crate::records::NewPaymentView;
use crate::records::OrderView;
use crate::records::PaymentView;
use crate::records::WalletClaimView;
use crate::records::CreditNoteView;
use crate::text::decimal;
use crate::text::signed_decimal;
use crate::status::IdentityKind;
use crate::status::OrderStatus;
use crate::status::PaymentType;
use crate::status::TransferStatus;
use crate::totals::sum_of_zeros;
use crate::totals::debits;
use crate::totals::pendings;
use crate::totals::credits;
use crate::totals::paid_total;
use crate::totals::open_total;
use crate::totals::confirmed_total;
use crate::totals::order_totals_after_push;
use crate::totals::order_totals_after_update;
use crate::totals::payment_totals_after_push;
use crate::totals::payment_totals_after_update;
use crate::totals::totals_fit;
use crate::totals::sum_covers_each;

verus! {

/// What a step of the engine leaves behind: the state, and either the
/// announcements to make or the reason why nothing was done.
pub struct Step {
    pub ledger: Ledger,
    pub result: Result<Seq<EventView>, OrderFlowError>,
}

/// The step that was refused.
pub open spec fn refused(s: Ledger, e: OrderFlowError) -> Step {
    Step { ledger: s, result: Err(e) }
}

/// The step that found nothing to do.
pub open spec fn unchanged(s: Ledger) -> Step {
    Step { ledger: s, result: Ok(Seq::empty()) }
}

pub open spec fn claim_address(claim: Option<WalletClaimView>) -> Option<Seq<char>> {
    match claim {
        Some(c) => Some(c.address),
        None => None,
    }
}

/// The row for a new order: claimed where it came with a claim, unclaimed
/// where it did not.
pub open spec fn order_row(o: NewOrderView, account: i64, now: i64) -> OrderView {
    OrderView {
        order_id: o.order_id,
        customer_id: o.customer_id,
        account_id: account,
        amount: o.amount,
        memo: o.memo,
        status: if o.claim is Some {
            OrderStatus::Claimed
        } else {
            OrderStatus::Unclaimed
        },
        created_at: o.created_at,
        updated_at: now,
        fulfilled: false,
    }
}

/// The row for a new payment from a wallet.
pub open spec fn payment_row(p: NewPaymentView, account: i64, now: i64) -> PaymentView {
    PaymentView {
        txid: p.txid,
        sender: p.sender,
        account_id: account,
        amount: p.amount,
        memo: p.memo,
        order_id: p.order_id,
        payment_type: PaymentType::OnChain,
        status: TransferStatus::Received,
        created_at: now,
    }
}

// -------------------------------------------------------------------
// Sums over rows that add nothing
// -------------------------------------------------------------------
/// An account that no row refers to has totals of zero.
proof fn unreferenced_account_has_no_totals(s: Ledger, id: i64)
    requires
        forall|i: int| 0 <= i < s.orders.len() ==> (#[trigger] s.orders[i]).account_id != id,
        forall|i: int| 0 <= i < s.payments.len() ==> (#[trigger] s.payments[i]).account_id != id,
    ensures
        paid_total(s.orders, id) == 0,
        open_total(s.orders, id) == 0,
        confirmed_total(s.payments, id) == 0,
{
    sum_of_zeros(debits(s.orders, id));
    sum_of_zeros(pendings(s.orders, id));
    sum_of_zeros(credits(s.payments, id));
}

// -------------------------------------------------------------------
// Resolving identities
// -------------------------------------------------------------------
/// Two well-formed states with the same links resolve every key alike.
pub proof fn resolve_depends_on_links(s: Ledger, t: Ledger, kind: IdentityKind, key: Seq<char>)
    requires
        s.well_formed(),
        t.well_formed(),
        s.links == t.links,
    ensures
        s.resolve(kind, key) == t.resolve(kind, key),
{
    if s.link_position(kind, key) is Some {
        let i = s.link_position(kind, key).unwrap();
        assert(s.holds_link(i, kind, key));
        assert(t.holds_link(i, kind, key));
        link_position_is_unique(t, i, kind, key);
    } else if t.link_position(kind, key) is Some {
        let i = t.link_position(kind, key).unwrap();
        assert(t.holds_link(i, kind, key));
        assert(s.holds_link(i, kind, key));
    }
}

/// Attaching a key keeps the state well-formed, leaves every known key
/// with its account, and makes the key known.
pub proof fn attach_properties(s: Ledger, kind: IdentityKind, key: Option<Seq<char>>, account: i64)
    requires
        s.well_formed(),
        s.has_account(account),
    ensures
        s.attach(kind, key, account).well_formed(),
        s.attach(kind, key, account).accounts == s.accounts,
        s.attach(kind, key, account).orders == s.orders,
        s.attach(kind, key, account).payments == s.payments,
        s.attach(kind, key, account).links.len() >= s.links.len(),
        forall|i: int|
            0 <= i < s.links.len() ==> #[trigger] s.attach(kind, key, account).links[i]
                == s.links[i],
        forall|k2: IdentityKind, key2: Seq<char>|
            s.resolve(k2, key2) is Some || !(k2 == kind && Some(key2) == key) ==> #[trigger] s.attach(
                kind,
                key,
                account,
            ).resolve(k2, key2) == s.resolve(k2, key2),
        key matches Some(k) ==> s.attach(kind, key, account).resolve(kind, k) == (if s.resolve(
            kind,
            k,
        ) is Some {
            s.resolve(kind, k)
        } else {
            Some(account)
        }),
{
    let t = s.attach(kind, key, account);
    if key is Some && s.resolve(kind, key.unwrap()) is None {
        let k = key.unwrap();
        let n = s.links.len() as int;
        assert(forall|i: int| !s.holds_link(i, kind, k));
        assert(t.links == s.links.push(LinkView { kind, key: k, account_id: account }));
        assert forall|i: int, j: int| 0 <= i < j < t.links.len() implies !((
        #[trigger] t.links[i]).kind == (#[trigger] t.links[j]).kind && t.links[i].key
            == t.links[j].key) by {
            if j == n {
                assert(!s.holds_link(i, kind, k));
            }
        }
        assert(t.well_formed());
        assert(t.holds_link(n, kind, k));
        link_position_is_unique(t, n, kind, k);
        assert forall|k2: IdentityKind, key2: Seq<char>|
            s.resolve(k2, key2) is Some || !(k2 == kind && Some(key2) == key) implies #[trigger] t.resolve(
            k2,
            key2,
        ) == s.resolve(k2, key2) by {
            if s.link_position(k2, key2) is Some {
                let i = s.link_position(k2, key2).unwrap();
                assert(s.holds_link(i, k2, key2));
                assert(t.holds_link(i, k2, key2));
                link_position_is_unique(t, i, k2, key2);
            } else {
                assert(forall|i: int| !s.holds_link(i, k2, key2));
                if t.link_position(k2, key2) is Some {
                    let j = t.link_position(k2, key2).unwrap();
                    assert(t.holds_link(j, k2, key2));
                    if j < n {
                        assert(s.holds_link(j, k2, key2));
                    }
                }
            }
        }
    }
}

/// Opening an account keeps a sound state sound and every other account
/// as it was.
pub proof fn open_account_properties(s: Ledger, now: i64)
    requires
        s.sound(),
        s.accounts.len() < i64::MAX,
    ensures
        s.open_account(now).sound(),
        s.open_account(now).has_account((s.accounts.len() + 1) as i64),
        forall|b: i64| s.has_account(b) ==> s.open_account(now).account(b) == s.account(b),
        forall|k2: IdentityKind, key2: Seq<char>| #[trigger]
            s.open_account(now).resolve(k2, key2) == s.resolve(k2, key2),
{
    let t = s.open_account(now);
    let id = (s.accounts.len() + 1) as i64;
    assert(t.well_formed());
    assert forall|k2: IdentityKind, key2: Seq<char>| #[trigger]
        t.resolve(k2, key2) == s.resolve(k2, key2) by {
        resolve_depends_on_links(s, t, k2, key2);
    }
    assert(t.consistent());
    unreferenced_account_has_no_totals(s, id);
    assert forall|b: i64| t.has_account(b) implies #[trigger] t.account_balanced(b) by {
        if b != id {
            assert(s.has_account(b));
            assert(s.account_balanced(b));
        }
    }
}

/// Resolving identities keeps a sound state sound. It touches neither
/// orders nor payments nor any account that existed, keeps every known key
/// with its account, and links each given identity to the account found.
pub proof fn resolving_keeps_sound(
    s: Ledger,
    customer: Option<Seq<char>>,
    address: Option<Seq<char>>,
    now: i64,
)
    requires
        s.sound(),
    ensures
        s.after_resolving(customer, address, now).sound(),
        s.after_resolving(customer, address, now).orders == s.orders,
        s.after_resolving(customer, address, now).payments == s.payments,
        s.after_resolving(customer, address, now).accounts.len() >= s.accounts.len(),
        s.after_resolving(customer, address, now).links.len() >= s.links.len(),
        forall|i: int|
            0 <= i < s.links.len() ==> #[trigger] s.after_resolving(customer, address, now).links[i]
                == s.links[i],
        forall|b: i64|
            s.has_account(b) ==> #[trigger] s.after_resolving(customer, address, now).account(b)
                == s.account(b),
        forall|k2: IdentityKind, key2: Seq<char>|
            s.resolve(k2, key2) is Some ==> #[trigger] s.after_resolving(
                customer,
                address,
                now,
            ).resolve(k2, key2) == s.resolve(k2, key2),
        s.resolved_account(customer, address) is Err ==> s.after_resolving(customer, address, now)
            == s,
        s.resolved_account(customer, address) matches Ok(a) ==> {
            &&& s.after_resolving(customer, address, now).has_account(a)
            &&& customer matches Some(k) ==> s.after_resolving(customer, address, now).resolve(
                IdentityKind::CustomerId,
                k,
            ) == Some(a)
            &&& address matches Some(k) ==> s.after_resolving(customer, address, now).resolve(
                IdentityKind::WalletAddress,
                k,
            ) == Some(a)
        },
{
    let t = s.after_resolving(customer, address, now);
    match s.resolved_account(customer, address) {
        Err(_) => {},
        Ok(a) => {
            let base = if s.resolution(customer, address) is Fresh {
                s.open_account(now)
            } else {
                s
            };
            if s.resolution(customer, address) is Fresh {
                open_account_properties(s, now);
            } else {
                if s.resolve_optional(IdentityKind::CustomerId, customer) is Some {
                    let i = s.link_position(IdentityKind::CustomerId, customer.unwrap()).unwrap();
                    assert(s.holds_link(i, IdentityKind::CustomerId, customer.unwrap()));
                    assert(s.has_account(s.links[i].account_id));
                }
                if s.resolve_optional(IdentityKind::WalletAddress, address) is Some {
                    let i = s.link_position(IdentityKind::WalletAddress, address.unwrap()).unwrap();
                    assert(s.holds_link(i, IdentityKind::WalletAddress, address.unwrap()));
                    assert(s.has_account(s.links[i].account_id));
                }
            }
            assert(base.sound());
            assert(base.has_account(a));
            let mid = base.attach(IdentityKind::CustomerId, customer, a);
            attach_properties(base, IdentityKind::CustomerId, customer, a);
            attach_properties(mid, IdentityKind::WalletAddress, address, a);
            assert(t == mid.attach(IdentityKind::WalletAddress, address, a));
            assert(t.well_formed());
            assert forall|i: int| 0 <= i < s.links.len() implies #[trigger] t.links[i]
                == s.links[i] by {
                assert(base.links[i] == s.links[i]);
                assert(mid.links[i] == base.links[i]);
            }
            assert forall|k2: IdentityKind, key2: Seq<char>|
                s.resolve(k2, key2) is Some implies #[trigger] t.resolve(k2, key2) == s.resolve(
                k2,
                key2,
            ) by {
                assert(base.resolve(k2, key2) == s.resolve(k2, key2));
                assert(mid.resolve(k2, key2) == base.resolve(k2, key2));
            }
            assert(t.consistent()) by {
                assert forall|i: int| 0 <= i < t.payments.len() implies t.resolve(
                    IdentityKind::WalletAddress,
                    (#[trigger] t.payments[i]).sender,
                ) == Some(t.payments[i].account_id) by {
                    assert(t.payments[i] == s.payments[i]);
                    assert(s.resolve(IdentityKind::WalletAddress, s.payments[i].sender) == Some(
                        s.payments[i].account_id,
                    ));
                }
            }
            assert forall|b: i64| t.has_account(b) implies #[trigger] t.account_balanced(b) by {
                assert(base.has_account(b));
                assert(base.account_balanced(b));
                assert(t.account(b) == base.account(b));
            }
            if customer is Some {
                let k = customer.unwrap();
                assert(mid.resolve(IdentityKind::CustomerId, k) == Some(a));
                assert(t.resolve(IdentityKind::CustomerId, k) == mid.resolve(
                    IdentityKind::CustomerId,
                    k,
                ));
            }
        },
    }
}

/// Two well-formed tables with the same ids find every order in the same
/// place.
pub proof fn order_position_depends_on_ids(s: Ledger, t: Ledger, order_id: Seq<char>)
    requires
        s.well_formed(),
        t.well_formed(),
        s.orders.len() == t.orders.len(),
        forall|i: int|
            0 <= i < s.orders.len() ==> (#[trigger] s.orders[i]).order_id == t.orders[i].order_id,
    ensures
        s.order_position(order_id) == t.order_position(order_id),
{
    if s.order_position(order_id) is Some {
        let i = s.order_position(order_id).unwrap();
        assert(s.holds_order(i, order_id));
        assert(s.orders[i].order_id == t.orders[i].order_id);
        assert(t.holds_order(i, order_id));
        order_position_is_unique(t, i, order_id);
    } else if t.order_position(order_id) is Some {
        let i = t.order_position(order_id).unwrap();
        assert(t.holds_order(i, order_id));
        assert(s.orders[i].order_id == t.orders[i].order_id);
        assert(s.holds_order(i, order_id));
    }
}

/// Two well-formed tables with the same transaction ids find every payment
/// in the same place.
pub proof fn payment_position_depends_on_ids(s: Ledger, t: Ledger, txid: Seq<char>)
    requires
        s.well_formed(),
        t.well_formed(),
        s.payments.len() == t.payments.len(),
        forall|i: int|
            0 <= i < s.payments.len() ==> (#[trigger] s.payments[i]).txid == t.payments[i].txid,
    ensures
        s.payment_position(txid) == t.payment_position(txid),
{
    if s.payment_position(txid) is Some {
        let i = s.payment_position(txid).unwrap();
        assert(s.holds_payment(i, txid));
        assert(s.payments[i].txid == t.payments[i].txid);
        assert(t.holds_payment(i, txid));
        payment_position_is_unique(t, i, txid);
    } else if t.payment_position(txid) is Some {
        let i = t.payment_position(txid).unwrap();
        assert(t.holds_payment(i, txid));
        assert(s.payments[i].txid == t.payments[i].txid);
        assert(s.holds_payment(i, txid));
    }
}

/// A table of at most `i64::MAX` rows has totals that leave room for one
/// more amount in 128 bits.
pub proof fn rows_leave_room(rows: nat)
    requires
        rows <= i64::MAX,
    ensures
        rows * u64::MAX + u64::MAX <= u128::MAX,
{
    assert(rows * u64::MAX <= 0x7fff_ffff_ffff_ffff * 0xffff_ffff_ffff_ffff) by (nonlinear_arith)
        requires
            rows <= 0x7fff_ffff_ffff_ffff,
            u64::MAX == 0xffff_ffff_ffff_ffff,
    ;
}

/// Links and accounts aside, a state resolves as another with the same
/// links does; used where a step changed rows only.
proof fn consistent_carries_over(s: Ledger, t: Ledger)
    requires
        s.well_formed(),
        s.consistent(),
        t.well_formed(),
        t.links == s.links,
        t.accounts.len() == s.accounts.len(),
        t.orders.len() == s.orders.len(),
        forall|i: int|
            0 <= i < s.orders.len() ==> t.has_account((#[trigger] t.orders[i]).account_id),
        t.payments.len() == s.payments.len(),
        forall|i: int|
            0 <= i < s.payments.len() ==> (#[trigger] t.payments[i]).sender == s.payments[i].sender
                && t.payments[i].account_id == s.payments[i].account_id,
    ensures
        t.consistent(),
{
    assert forall|i: int| 0 <= i < t.payments.len() implies t.resolve(
        IdentityKind::WalletAddress,
        (#[trigger] t.payments[i]).sender,
    ) == Some(t.payments[i].account_id) by {
        resolve_depends_on_links(s, t, IdentityKind::WalletAddress, s.payments[i].sender);
        assert(s.resolve(IdentityKind::WalletAddress, s.payments[i].sender) == Some(
            s.payments[i].account_id,
        ));
    }
    assert forall|i: int| 0 <= i < t.payments.len() implies t.has_account(
        (#[trigger] t.payments[i]).account_id,
    ) by {
        assert(s.has_account(s.payments[i].account_id));
    }
}

// -------------------------------------------------------------------
// A new order
// -------------------------------------------------------------------
/// The state with a new row for an open order and its amount on the
/// account's pending value.
pub open spec fn with_order(r: Ledger, row: OrderView, now: i64) -> Ledger {
    r.add_order(row).after_adjustment(row.account_id, 0, 0, row.amount as int, now)
}

/// Storing an open order under a new id keeps the state sound; neither the
/// insertion nor the change to the account can fail.
pub proof fn storing_order_keeps_sound(r: Ledger, row: OrderView, now: i64)
    requires
        r.sound(),
        r.has_account(row.account_id),
        r.order_position(row.order_id) is None,
        r.orders.len() < i64::MAX,
        row.status.is_open(),
    ensures
        r.order_insertion(row) is Ok,
        r.after_order_insertion(row) == r.add_order(row),
        r.add_order(row).well_formed(),
        r.add_order(row).adjustment(row.account_id, 0, 0, row.amount as int, now) is Ok,
        with_order(r, row, now).sound(),
        with_order(r, row, now).links == r.links,
        with_order(r, row, now).payments == r.payments,
        with_order(r, row, now).accounts.len() == r.accounts.len(),
        with_order(r, row, now).orders == r.orders.push(row),
        forall|b: i64|
            r.has_account(b) ==> (#[trigger] with_order(r, row, now).account(b)).spendable()
                == r.account(b).spendable(),
        with_order(r, row, now).accounts == r.accounts.update(
            row.account_id - 1,
            Account {
                pending: (r.account(row.account_id).pending + row.amount) as u128,
                updated_at: now,
                ..r.account(row.account_id)
            },
        ),
{
    let a = row.account_id;
    let t1 = r.add_order(row);
    assert(forall|i: int| !r.holds_order(i, row.order_id));
    assert forall|i: int, j: int| 0 <= i < j < t1.orders.len() implies (
    #[trigger] t1.orders[i]).order_id != (#[trigger] t1.orders[j]).order_id by {
        if j == r.orders.len() {
            assert(!r.holds_order(i, row.order_id));
        }
    }
    assert(t1.well_formed());
    assert(r.account_balanced(a));
    totals_fit(r.orders, r.payments, a);
    rows_leave_room(r.orders.len());
    let acc = r.account(a);
    let acc2 = Account { pending: (acc.pending + row.amount) as u128, updated_at: now, ..acc };
    assert(t1.adjustment(a, 0, 0, row.amount as int, now) == Ok::<Account, OrderFlowError>(acc2));
    let t2 = t1.put_account(a, acc2);
    assert(with_order(r, row, now) == t2);
    assert(t2.well_formed());
    assert(t2.consistent()) by {
        assert forall|i: int| 0 <= i < t2.payments.len() implies t2.resolve(
            IdentityKind::WalletAddress,
            (#[trigger] t2.payments[i]).sender,
        ) == Some(t2.payments[i].account_id) by {
            resolve_depends_on_links(r, t2, IdentityKind::WalletAddress, r.payments[i].sender);
            assert(r.resolve(IdentityKind::WalletAddress, r.payments[i].sender) == Some(
                r.payments[i].account_id,
            ));
        }
    }
    assert forall|b: i64| t2.has_account(b) implies #[trigger] t2.account_balanced(b) by {
        assert(r.has_account(b));
        assert(r.account_balanced(b));
        order_totals_after_push(r.orders, row, b);
    }
}

/// What a new order does. A known id changes nothing and announces
/// nothing. A claim with a bad signature, a full table and an identity
/// conflict refuse the order. Otherwise the account is resolved, the order
/// is stored and its amount added to the account's pending value; an order
/// that came with a claim is claimed at once, and the matcher runs.
pub open spec fn new_order_step(s: Ledger, o: NewOrderView, now: i64) -> Step {
    if s.order_position(o.order_id) is Some {
        unchanged(s)
    } else if o.claim is Some && !o.claim.unwrap().verified {
        refused(s, OrderFlowError::InvalidSignature)
    } else if s.orders.len() >= i64::MAX {
        refused(s, OrderFlowError::StoreFull)
    } else {
        match s.resolved_account(o.customer_id, claim_address(o.claim)) {
            Err(e) => refused(s, e),
            Ok(a) => {
                let stored = with_order(
                    s.after_resolving(o.customer_id, claim_address(o.claim), now),
                    order_row(o, a, now),
                    now,
                );
                if o.claim is Some {
                    Step {
                        ledger: settle(stored, a, now),
                        result: Ok(
                            seq![EventView::OrderReceived(o.order_id)] + paid_events(
                                settled(stored, a, now),
                            ),
                        ),
                    }
                } else {
                    Step { ledger: stored, result: Ok(seq![EventView::OrderReceived(o.order_id)]) }
                }
            },
        }
    }
}

pub proof fn new_order_keeps_sound(s: Ledger, o: NewOrderView, now: i64)
    requires
        s.sound(),
    ensures
        new_order_step(s, o, now).ledger.sound(),
        new_order_step(s, o, now).result is Err ==> new_order_step(s, o, now).ledger == s,
        new_order_step(s, o, now).ledger.order_position(o.order_id) is Some
            || new_order_step(s, o, now).result is Err,
{
    if s.order_position(o.order_id) is Some {
    } else if o.claim is Some && !o.claim.unwrap().verified {
    } else if s.orders.len() >= i64::MAX {
    } else {
        match s.resolved_account(o.customer_id, claim_address(o.claim)) {
            Err(e) => {},
            Ok(a) => {
                let r = s.after_resolving(o.customer_id, claim_address(o.claim), now);
                resolving_keeps_sound(s, o.customer_id, claim_address(o.claim), now);
                order_position_depends_on_ids(s, r, o.order_id);
                let row = order_row(o, a, now);
                storing_order_keeps_sound(r, row, now);
                let stored = with_order(r, row, now);
                let n = r.orders.len() as int;
                assert(stored.holds_order(n, o.order_id));
                order_position_is_unique(stored, n, o.order_id);
                if o.claim is Some {
                    settle_properties(stored, a, now);
                    settle_keeps_ids(stored, a, now);
                    order_position_depends_on_ids(stored, settle(stored, a, now), o.order_id);
                }
            },
        }
    }
}

/// The matcher changes neither the ids of the rows nor who owns them nor
/// what they cost.
pub proof fn settle_keeps_ids(s: Ledger, account: i64, now: i64)
    requires
        s.sound(),
        s.has_account(account),
    ensures
        settle(s, account, now).orders.len() == s.orders.len(),
        forall|i: int|
            0 <= i < s.orders.len() ==> {
                &&& (#[trigger] settle(s, account, now).orders[i]).order_id == s.orders[i].order_id
                &&& settle(s, account, now).orders[i].account_id == s.orders[i].account_id
                &&& settle(s, account, now).orders[i].amount == s.orders[i].amount
            },
{
    crate::matcher::settle_steps_keep_ids(s, account, now, s.orders.len());
}

// -------------------------------------------------------------------
// A new payment
// -------------------------------------------------------------------
/// Storing a received payment under a new transaction id keeps the state
/// sound.
pub proof fn storing_payment_keeps_sound(r: Ledger, row: PaymentView)
    requires
        r.sound(),
        r.has_account(row.account_id),
        r.payment_position(row.txid) is None,
        r.payments.len() < i64::MAX,
        !(row.status is Confirmed),
        r.resolve(IdentityKind::WalletAddress, row.sender) == Some(row.account_id),
    ensures
        r.payment_insertion(row) == Ok::<bool, OrderFlowError>(true),
        r.after_payment_insertion(row) == r.add_payment(row),
        r.add_payment(row).sound(),
{
    let t = r.add_payment(row);
    assert(forall|i: int| !r.holds_payment(i, row.txid));
    assert forall|i: int, j: int| 0 <= i < j < t.payments.len() implies (
    #[trigger] t.payments[i]).txid != (#[trigger] t.payments[j]).txid by {
        if j == r.payments.len() {
            assert(!r.holds_payment(i, row.txid));
        }
    }
    assert(t.well_formed());
    assert forall|i: int| 0 <= i < t.payments.len() implies t.resolve(
        IdentityKind::WalletAddress,
        (#[trigger] t.payments[i]).sender,
    ) == Some(t.payments[i].account_id) by {
        resolve_depends_on_links(r, t, IdentityKind::WalletAddress, t.payments[i].sender);
        if i < r.payments.len() {
            assert(t.payments[i] == r.payments[i]);
        }
    }
    assert forall|b: i64| t.has_account(b) implies #[trigger] t.account_balanced(b) by {
        assert(r.has_account(b));
        assert(r.account_balanced(b));
        payment_totals_after_push(r.payments, row, b);
    }
}

/// What a new payment does. A known transaction id changes nothing and
/// announces nothing. Otherwise the sender's account is resolved and the
/// payment stored as received: it adds to no account's credits yet.
pub open spec fn new_payment_step(s: Ledger, p: NewPaymentView, now: i64) -> Step {
    if s.payment_position(p.txid) is Some {
        unchanged(s)
    } else if s.payments.len() >= i64::MAX {
        refused(s, OrderFlowError::StoreFull)
    } else {
        match s.resolved_account(None, Some(p.sender)) {
            Err(e) => refused(s, e),
            Ok(a) => Step {
                ledger: s.after_resolving(None, Some(p.sender), now).add_payment(
                    payment_row(p, a, now),
                ),
                result: Ok(seq![EventView::PaymentReceived(p.txid)]),
            },
        }
    }
}

pub proof fn new_payment_keeps_sound(s: Ledger, p: NewPaymentView, now: i64)
    requires
        s.sound(),
    ensures
        new_payment_step(s, p, now).ledger.sound(),
        new_payment_step(s, p, now).result is Err ==> new_payment_step(s, p, now).ledger == s,
        new_payment_step(s, p, now).ledger.payment_position(p.txid) is Some
            || new_payment_step(s, p, now).result is Err,
        new_payment_step(s, p, now).ledger.orders == s.orders,
{
    if s.payment_position(p.txid) is None && s.payments.len() < i64::MAX {
        match s.resolved_account(None, Some(p.sender)) {
            Err(e) => {},
            Ok(a) => {
                let r = s.after_resolving(None, Some(p.sender), now);
                resolving_keeps_sound(s, None, Some(p.sender), now);
                payment_position_depends_on_ids(s, r, p.txid);
                let row = payment_row(p, a, now);
                storing_payment_keeps_sound(r, row);
                let t = r.add_payment(row);
                let n = r.payments.len() as int;
                assert(t.holds_payment(n, p.txid));
                payment_position_is_unique(t, n, p.txid);
            },
        }
    }
}

// -------------------------------------------------------------------
// Confirming and cancelling a payment
// -------------------------------------------------------------------
/// The state with the payment in row `i` confirmed and its amount on the
/// credits of its account.
pub open spec fn confirmed(s: Ledger, i: int, now: i64) -> Ledger {
    let p = s.payments[i];
    s.after_payment_update(p.txid, TransferStatus::Confirmed).after_adjustment(
        p.account_id,
        p.amount as int,
        0,
        0,
        now,
    )
}

/// Confirming a received payment keeps the state sound; neither the change
/// of status nor the change to the account can fail.
pub proof fn confirming_keeps_sound(s: Ledger, i: int, now: i64)
    requires
        s.sound(),
        0 <= i < s.payments.len(),
        s.payments[i].status is Received,
    ensures
        s.payment_update(s.payments[i].txid, TransferStatus::Confirmed) == Ok::<
            Option<i64>,
            OrderFlowError,
        >(Some(s.payments[i].account_id)),
        s.after_payment_update(s.payments[i].txid, TransferStatus::Confirmed).well_formed(),
        s.after_payment_update(s.payments[i].txid, TransferStatus::Confirmed).adjustment(
            s.payments[i].account_id,
            s.payments[i].amount as int,
            0,
            0,
            now,
        ) is Ok,
        confirmed(s, i, now).sound(),
        confirmed(s, i, now).has_account(s.payments[i].account_id),
        confirmed(s, i, now).orders == s.orders,
        confirmed(s, i, now).links == s.links,
        confirmed(s, i, now).account(s.payments[i].account_id).spendable() == s.account(
            s.payments[i].account_id,
        ).spendable() + s.payments[i].amount,
        confirmed(s, i, now).payments == s.payments.update(
            i,
            PaymentView { status: TransferStatus::Confirmed, ..s.payments[i] },
        ),
        confirmed(s, i, now).accounts == s.accounts.update(
            s.payments[i].account_id - 1,
            Account {
                credits: (s.account(s.payments[i].account_id).credits + s.payments[i].amount) as u128,
                updated_at: now,
                ..s.account(s.payments[i].account_id)
            },
        ),
{
    let p = s.payments[i];
    let a = p.account_id;
    payment_position_is_unique(s, i, p.txid);
    let row = PaymentView { status: TransferStatus::Confirmed, ..p };
    let t1 = s.put_payment(i, row);
    assert(s.after_payment_update(p.txid, TransferStatus::Confirmed) == t1);
    assert(t1.well_formed());
    assert(s.has_account(a));
    assert(s.account_balanced(a));
    payment_totals_after_update(s.payments, i, row, a);
    totals_fit(s.orders, t1.payments, a);
    rows_leave_room(s.payments.len());
    let acc = s.account(a);
    let acc2 = Account { credits: (acc.credits + p.amount) as u128, updated_at: now, ..acc };
    assert(t1.adjustment(a, p.amount as int, 0, 0, now) == Ok::<Account, OrderFlowError>(acc2));
    let t2 = t1.put_account(a, acc2);
    assert(confirmed(s, i, now) == t2);
    consistent_carries_over(s, t2);
    assert forall|b: i64| t2.has_account(b) implies #[trigger] t2.account_balanced(b) by {
        assert(s.has_account(b));
        assert(s.account_balanced(b));
        payment_totals_after_update(s.payments, i, row, b);
    }
}

/// What confirming a payment does: it is refused where the payment is
/// unknown, or confirmed or cancelled already; otherwise the payment is
/// confirmed, its amount is added to the credits of its account, and the
/// matcher runs on that account.
pub open spec fn confirm_payment_step(s: Ledger, txid: Seq<char>, now: i64) -> Step {
    match s.payment_update(txid, TransferStatus::Confirmed) {
        Err(e) => refused(s, e),
        Ok(None) => unchanged(s),
        Ok(Some(a)) => {
            let credited = confirmed(s, s.payment_position(txid).unwrap(), now);
            Step {
                ledger: settle(credited, a, now),
                result: Ok(
                    seq![EventView::PaymentConfirmed(txid)] + paid_events(settled(credited, a, now)),
                ),
            }
        },
    }
}

pub proof fn confirm_payment_keeps_sound(s: Ledger, txid: Seq<char>, now: i64)
    requires
        s.sound(),
    ensures
        confirm_payment_step(s, txid, now).ledger.sound(),
        confirm_payment_step(s, txid, now).result is Err ==> confirm_payment_step(
            s,
            txid,
            now,
        ).ledger == s,
{
    match s.payment_update(txid, TransferStatus::Confirmed) {
        Ok(Some(a)) => {
            let i = s.payment_position(txid).unwrap();
            assert(s.holds_payment(i, txid));
            confirming_keeps_sound(s, i, now);
            settle_properties(confirmed(s, i, now), a, now);
        },
        _ => {},
    }
}

/// Cancelling a received payment keeps the state sound.
pub proof fn cancelling_payment_keeps_sound(s: Ledger, i: int)
    requires
        s.sound(),
        0 <= i < s.payments.len(),
        s.payments[i].status is Received,
    ensures
        s.payment_update(s.payments[i].txid, TransferStatus::Cancelled) == Ok::<
            Option<i64>,
            OrderFlowError,
        >(Some(s.payments[i].account_id)),
        s.after_payment_update(s.payments[i].txid, TransferStatus::Cancelled).sound(),
        s.after_payment_update(s.payments[i].txid, TransferStatus::Cancelled).accounts
            == s.accounts,
        s.after_payment_update(s.payments[i].txid, TransferStatus::Cancelled).orders == s.orders,
        s.after_payment_update(s.payments[i].txid, TransferStatus::Cancelled).links == s.links,
        s.after_payment_update(s.payments[i].txid, TransferStatus::Cancelled).payments
            == s.payments.update(
            i,
            PaymentView { status: TransferStatus::Cancelled, ..s.payments[i] },
        ),
{
    let p = s.payments[i];
    payment_position_is_unique(s, i, p.txid);
    let row = PaymentView { status: TransferStatus::Cancelled, ..p };
    let t = s.put_payment(i, row);
    assert(s.after_payment_update(p.txid, TransferStatus::Cancelled) == t);
    assert(t.well_formed());
    consistent_carries_over(s, t);
    assert forall|b: i64| t.has_account(b) implies #[trigger] t.account_balanced(b) by {
        assert(s.has_account(b));
        assert(s.account_balanced(b));
        payment_totals_after_update(s.payments, i, row, b);
    }
}

/// What cancelling a payment does: it is refused where the payment is
/// unknown, or confirmed or cancelled already; otherwise the payment is
/// cancelled and no longer waits to be confirmed. No account changes.
pub open spec fn cancel_payment_step(s: Ledger, txid: Seq<char>) -> Step {
    match s.payment_update(txid, TransferStatus::Cancelled) {
        Err(e) => refused(s, e),
        Ok(_) => Step {
            ledger: s.after_payment_update(txid, TransferStatus::Cancelled),
            result: Ok(Seq::empty()),
        },
    }
}

pub proof fn cancel_payment_keeps_sound(s: Ledger, txid: Seq<char>)
    requires
        s.sound(),
    ensures
        cancel_payment_step(s, txid).ledger.sound(),
        cancel_payment_step(s, txid).result is Err ==> cancel_payment_step(s, txid).ledger == s,
{
    match s.payment_update(txid, TransferStatus::Cancelled) {
        Ok(Some(a)) => {
            let i = s.payment_position(txid).unwrap();
            assert(s.holds_payment(i, txid));
            cancelling_payment_keeps_sound(s, i);
        },
        _ => {},
    }
}

// -------------------------------------------------------------------
// Closing an order: cancelling and expiring
// -------------------------------------------------------------------
/// The state with the order in row `i` closed, and its amount taken off the
/// pending value of its account.
pub open spec fn closed(s: Ledger, i: int, status: OrderStatus, now: i64) -> Ledger {
    let o = s.orders[i];
    s.after_order_update(o.order_id, status, now).after_adjustment(
        o.account_id,
        0,
        0,
        -(o.amount as int),
        now,
    )
}

/// Closing an open order keeps the state sound; neither the change of
/// status nor the change to the account can fail.
pub proof fn closing_keeps_sound(s: Ledger, i: int, status: OrderStatus, now: i64)
    requires
        s.sound(),
        0 <= i < s.orders.len(),
        s.orders[i].status.is_open(),
        status is Cancelled || status is Expired,
    ensures
        s.order_update(s.orders[i].order_id, status) is Ok,
        s.after_order_update(s.orders[i].order_id, status, now).well_formed(),
        s.after_order_update(s.orders[i].order_id, status, now).adjustment(
            s.orders[i].account_id,
            0,
            0,
            -(s.orders[i].amount as int),
            now,
        ) is Ok,
        closed(s, i, status, now).sound(),
        closed(s, i, status, now).orders == s.orders.update(
            i,
            OrderView { status, updated_at: now, ..s.orders[i] },
        ),
        closed(s, i, status, now).links == s.links,
        closed(s, i, status, now).payments == s.payments,
        closed(s, i, status, now).accounts.len() == s.accounts.len(),
        closed(s, i, status, now).accounts == s.accounts.update(
            s.orders[i].account_id - 1,
            Account {
                pending: (s.account(s.orders[i].account_id).pending - s.orders[i].amount) as u128,
                updated_at: now,
                ..s.account(s.orders[i].account_id)
            },
        ),
{
    let o = s.orders[i];
    let a = o.account_id;
    order_position_is_unique(s, i, o.order_id);
    let row = OrderView { status, updated_at: now, ..o };
    let t1 = s.put_order(i, row);
    assert(s.after_order_update(o.order_id, status, now) == t1);
    assert(t1.well_formed());
    assert(s.has_account(a));
    assert(s.account_balanced(a));
    sum_covers_each(pendings(s.orders, a), i);
    let acc = s.account(a);
    let acc2 = Account { pending: (acc.pending - o.amount) as u128, updated_at: now, ..acc };
    assert(t1.adjustment(a, 0, 0, -(o.amount as int), now) == Ok::<Account, OrderFlowError>(acc2));
    let t2 = t1.put_account(a, acc2);
    assert(closed(s, i, status, now) == t2);
    consistent_carries_over(s, t2);
    assert forall|b: i64| t2.has_account(b) implies #[trigger] t2.account_balanced(b) by {
        assert(s.has_account(b));
        assert(s.account_balanced(b));
        order_totals_after_update(s.orders, i, row, b);
    }
}

/// What an administrator's cancellation does: it is refused where the order
/// is unknown or neither unclaimed nor claimed; otherwise the order is
/// cancelled and its amount leaves the pending value of its account.
pub open spec fn cancel_order_step(s: Ledger, order_id: Seq<char>, now: i64) -> Step {
    match s.order_update(order_id, OrderStatus::Cancelled) {
        Err(e) => refused(s, e),
        Ok(_) => Step {
            ledger: closed(s, s.order_position(order_id).unwrap(), OrderStatus::Cancelled, now),
            result: Ok(seq![EventView::OrderCancelled(order_id)]),
        },
    }
}

pub proof fn cancel_order_keeps_sound(s: Ledger, order_id: Seq<char>, now: i64)
    requires
        s.sound(),
    ensures
        cancel_order_step(s, order_id, now).ledger.sound(),
        cancel_order_step(s, order_id, now).result is Err ==> cancel_order_step(
            s,
            order_id,
            now,
        ).ledger == s,
{
    if s.order_update(order_id, OrderStatus::Cancelled) is Ok {
        let i = s.order_position(order_id).unwrap();
        assert(s.holds_order(i, order_id));
        closing_keeps_sound(s, i, OrderStatus::Cancelled, now);
    }
}

/// An order is due to expire: it is unclaimed and older than the one
/// timeout, or claimed and older than the other. Its age counts from its
/// last change.
pub open spec fn is_due(o: OrderView, now: i64, unclaimed_timeout: u64, unpaid_timeout: u64) -> bool {
    ||| o.status is Unclaimed && now - o.updated_at > unclaimed_timeout
    ||| o.status is Claimed && now - o.updated_at > unpaid_timeout
}

/// The state after the expiry worker has looked at the first `n` rows.
pub open spec fn expire_rows(
    s: Ledger,
    n: nat,
    now: i64,
    unclaimed_timeout: u64,
    unpaid_timeout: u64,
) -> Ledger
    decreases n,
{
    if n == 0 {
        s
    } else {
        let before = expire_rows(s, (n - 1) as nat, now, unclaimed_timeout, unpaid_timeout);
        if n - 1 < before.orders.len() && is_due(
            before.orders[n - 1],
            now,
            unclaimed_timeout,
            unpaid_timeout,
        ) {
            closed(before, n - 1, OrderStatus::Expired, now)
        } else {
            before
        }
    }
}

/// What the expiry worker announces for the first `n` rows.
pub open spec fn expiry_events(
    s: Ledger,
    n: nat,
    now: i64,
    unclaimed_timeout: u64,
    unpaid_timeout: u64,
) -> Seq<EventView>
    decreases n,
{
    if n == 0 {
        Seq::empty()
    } else {
        let before = expire_rows(s, (n - 1) as nat, now, unclaimed_timeout, unpaid_timeout);
        let earlier = expiry_events(s, (n - 1) as nat, now, unclaimed_timeout, unpaid_timeout);
        if n - 1 < before.orders.len() && is_due(
            before.orders[n - 1],
            now,
            unclaimed_timeout,
            unpaid_timeout,
        ) {
            earlier.push(EventView::OrderCancelled(before.orders[n - 1].order_id))
        } else {
            earlier
        }
    }
}

/// What a pass of the expiry worker does: every order that is due expires,
/// and its amount leaves the pending value of its account.
pub open spec fn expire_step(s: Ledger, now: i64, unclaimed_timeout: u64, unpaid_timeout: u64) -> Step {
    Step {
        ledger: expire_rows(s, s.orders.len(), now, unclaimed_timeout, unpaid_timeout),
        result: Ok(expiry_events(s, s.orders.len(), now, unclaimed_timeout, unpaid_timeout)),
    }
}

/// The expiry worker keeps the state sound. It changes no row that it has
/// not reached, and a row that was due is expired.
pub proof fn expire_rows_properties(
    s: Ledger,
    n: nat,
    now: i64,
    unclaimed_timeout: u64,
    unpaid_timeout: u64,
)
    requires
        s.sound(),
        n <= s.orders.len(),
    ensures
        expire_rows(s, n, now, unclaimed_timeout, unpaid_timeout).sound(),
        expire_rows(s, n, now, unclaimed_timeout, unpaid_timeout).orders.len() == s.orders.len(),
        expire_rows(s, n, now, unclaimed_timeout, unpaid_timeout).links == s.links,
        expire_rows(s, n, now, unclaimed_timeout, unpaid_timeout).payments == s.payments,
        expire_rows(s, n, now, unclaimed_timeout, unpaid_timeout).accounts.len()
            == s.accounts.len(),
        forall|b: i64|
            s.has_account(b) ==> {
                &&& (#[trigger] expire_rows(
                    s,
                    n,
                    now,
                    unclaimed_timeout,
                    unpaid_timeout,
                ).account(b)).credits == s.account(b).credits
                &&& expire_rows(s, n, now, unclaimed_timeout, unpaid_timeout).account(b).debits
                    == s.account(b).debits
                &&& expire_rows(s, n, now, unclaimed_timeout, unpaid_timeout).account(b).id
                    == s.account(b).id
                &&& expire_rows(s, n, now, unclaimed_timeout, unpaid_timeout).account(b).created_at
                    == s.account(b).created_at
            },
        forall|i: int|
            n <= i < s.orders.len() ==> #[trigger] expire_rows(
                s,
                n,
                now,
                unclaimed_timeout,
                unpaid_timeout,
            ).orders[i] == s.orders[i],
        forall|i: int|
            0 <= i < n ==> #[trigger] expire_rows(
                s,
                n,
                now,
                unclaimed_timeout,
                unpaid_timeout,
            ).orders[i] == (if is_due(s.orders[i], now, unclaimed_timeout, unpaid_timeout) {
                OrderView { status: OrderStatus::Expired, updated_at: now, ..s.orders[i] }
            } else {
                s.orders[i]
            }),
    decreases n,
{
    if n > 0 {
        expire_rows_properties(s, (n - 1) as nat, now, unclaimed_timeout, unpaid_timeout);
        let before = expire_rows(s, (n - 1) as nat, now, unclaimed_timeout, unpaid_timeout);
        assert(before.orders[n - 1] == s.orders[n - 1]);
        if is_due(before.orders[n - 1], now, unclaimed_timeout, unpaid_timeout) {
            closing_keeps_sound(before, n - 1, OrderStatus::Expired, now);
        }
        assert forall|b: i64| s.has_account(b) implies {
            &&& (#[trigger] expire_rows(s, n, now, unclaimed_timeout, unpaid_timeout).account(
                b,
            )).credits == s.account(b).credits
            &&& expire_rows(s, n, now, unclaimed_timeout, unpaid_timeout).account(b).debits
                == s.account(b).debits
            &&& expire_rows(s, n, now, unclaimed_timeout, unpaid_timeout).account(b).id
                == s.account(b).id
            &&& expire_rows(s, n, now, unclaimed_timeout, unpaid_timeout).account(b).created_at
                == s.account(b).created_at
        } by {
            assert(before.has_account(b));
            assert(before.account(b).credits == s.account(b).credits);
        }
    }
}

// -------------------------------------------------------------------
// Claiming an order
// -------------------------------------------------------------------
/// The state with the unclaimed order in row `i` claimed for `account`: its
/// amount moves from the pending value of the account that held it to that
/// of `account`.
pub open spec fn claimed(s: Ledger, i: int, account: i64, now: i64) -> Ledger {
    let o = s.orders[i];
    s.after_adjustment(o.account_id, 0, 0, -(o.amount as int), now).after_reassignment(
        o.order_id,
        account,
    ).after_order_update(o.order_id, OrderStatus::Claimed, now).after_adjustment(
        account,
        0,
        0,
        o.amount as int,
        now,
    )
}

/// Claiming an unclaimed order keeps the state sound, and none of its four
/// changes can fail.
pub proof fn claiming_keeps_sound(s: Ledger, i: int, account: i64, now: i64)
    requires
        s.sound(),
        0 <= i < s.orders.len(),
        s.orders[i].status is Unclaimed,
        s.has_account(account),
    ensures
        ({
            let o = s.orders[i];
            let s1 = s.after_adjustment(o.account_id, 0, 0, -(o.amount as int), now);
            let s2 = s1.after_reassignment(o.order_id, account);
            let s3 = s2.after_order_update(o.order_id, OrderStatus::Claimed, now);
            &&& s.adjustment(o.account_id, 0, 0, -(o.amount as int), now) is Ok
            &&& s1.well_formed()
            &&& s1.reassignment(o.order_id, account) is Ok
            &&& s2.well_formed()
            &&& s2.order_update(o.order_id, OrderStatus::Claimed) is Ok
            &&& s3.well_formed()
            &&& s3.adjustment(account, 0, 0, o.amount as int, now) is Ok
        }),
        claimed(s, i, account, now).sound(),
        claimed(s, i, account, now).orders == s.orders.update(
            i,
            OrderView {
                account_id: account,
                status: OrderStatus::Claimed,
                updated_at: now,
                ..s.orders[i]
            },
        ),
        claimed(s, i, account, now).links == s.links,
        claimed(s, i, account, now).payments == s.payments,
        claimed(s, i, account, now).accounts.len() == s.accounts.len(),
        forall|b: i64|
            s.has_account(b) ==> {
                &&& (#[trigger] claimed(s, i, account, now).account(b)).credits == s.account(
                    b,
                ).credits
                &&& claimed(s, i, account, now).account(b).debits == s.account(b).debits
                &&& claimed(s, i, account, now).account(b).id == s.account(b).id
                &&& claimed(s, i, account, now).account(b).created_at == s.account(b).created_at
            },
{
    let o = s.orders[i];
    let from = o.account_id;
    assert(s.has_account(from));
    assert(s.account_balanced(from));
    assert(s.account_balanced(account));
    sum_covers_each(pendings(s.orders, from), i);
    let acc = s.account(from);
    let acc1 = Account { pending: (acc.pending - o.amount) as u128, updated_at: now, ..acc };
    assert(s.adjustment(from, 0, 0, -(o.amount as int), now) == Ok::<Account, OrderFlowError>(acc1));
    let s1 = s.put_account(from, acc1);
    assert(s.after_adjustment(from, 0, 0, -(o.amount as int), now) == s1);
    assert(s1.well_formed());
    order_position_is_unique(s1, i, o.order_id);
    let row2 = OrderView { account_id: account, ..o };
    let s2 = s1.put_order(i, row2);
    assert(s1.after_reassignment(o.order_id, account) == s2);
    assert(s2.well_formed());
    order_position_is_unique(s2, i, o.order_id);
    let row3 = OrderView { status: OrderStatus::Claimed, updated_at: now, ..row2 };
    let s3 = s2.put_order(i, row3);
    assert(s2.after_order_update(o.order_id, OrderStatus::Claimed, now) == s3);
    assert(s3.orders =~= s.orders.update(i, row3));
    assert(s3.well_formed());
    order_totals_after_update(s.orders, i, row3, account);
    totals_fit(s3.orders, s.payments, account);
    rows_leave_room(s.orders.len());
    let held = s3.account(account);
    let acc3 = Account { pending: (held.pending + o.amount) as u128, updated_at: now, ..held };
    assert(s3.adjustment(account, 0, 0, o.amount as int, now) == Ok::<Account, OrderFlowError>(
        acc3,
    ));
    let s4 = s3.put_account(account, acc3);
    assert(claimed(s, i, account, now) == s4);
    assert(s4.well_formed());
    consistent_carries_over(s, s4);
    assert forall|b: i64| s4.has_account(b) implies #[trigger] s4.account_balanced(b) by {
        assert(s.has_account(b));
        assert(s.account_balanced(b));
        order_totals_after_update(s.orders, i, row3, b);
    }
}

/// What a wallet's claim does. It is refused where the signature is bad,
/// where the order is unknown or not unclaimed, and where the order's
/// customer and the wallet belong to different accounts. Otherwise the
/// wallet is linked to the account, the order is claimed for it, and the
/// matcher runs.
pub open spec fn claim_order_step(
    s: Ledger,
    order_id: Seq<char>,
    claim: WalletClaimView,
    now: i64,
) -> Step {
    if !claim.verified {
        refused(s, OrderFlowError::InvalidSignature)
    } else {
        match s.order_position(order_id) {
            None => refused(s, OrderFlowError::OrderNotFound),
            Some(i) => if !(s.orders[i].status is Unclaimed) {
                refused(s, OrderFlowError::InvalidTransition)
            } else {
                match s.resolved_account(s.orders[i].customer_id, Some(claim.address)) {
                    Err(e) => refused(s, e),
                    Ok(a) => {
                        let held = claimed(
                            s.after_resolving(s.orders[i].customer_id, Some(claim.address), now),
                            i,
                            a,
                            now,
                        );
                        Step {
                            ledger: settle(held, a, now),
                            result: Ok(paid_events(settled(held, a, now))),
                        }
                    },
                }
            },
        }
    }
}

pub proof fn claim_order_keeps_sound(s: Ledger, order_id: Seq<char>, claim: WalletClaimView, now: i64)
    requires
        s.sound(),
    ensures
        claim_order_step(s, order_id, claim, now).ledger.sound(),
        claim_order_step(s, order_id, claim, now).result is Err ==> claim_order_step(
            s,
            order_id,
            claim,
            now,
        ).ledger == s,
{
    if claim.verified && s.order_position(order_id) is Some {
        let i = s.order_position(order_id).unwrap();
        assert(s.holds_order(i, order_id));
        if s.orders[i].status is Unclaimed {
            match s.resolved_account(s.orders[i].customer_id, Some(claim.address)) {
                Err(e) => {},
                Ok(a) => {
                    resolving_keeps_sound(s, s.orders[i].customer_id, Some(claim.address), now);
                    let r = s.after_resolving(s.orders[i].customer_id, Some(claim.address), now);
                    claiming_keeps_sound(r, i, a, now);
                    settle_properties(claimed(r, i, a, now), a, now);
                },
            }
        }
    }
}

// -------------------------------------------------------------------
// Resetting and fulfilling an order
// -------------------------------------------------------------------
/// The state with the paid order in row `i` claimed again and its amount
/// moved back from the debits of its account to its pending value.
pub open spec fn reset(s: Ledger, i: int, now: i64) -> Ledger {
    let o = s.orders[i];
    s.after_reopening(o.order_id, now).after_adjustment(
        o.account_id,
        0,
        -(o.amount as int),
        o.amount as int,
        now,
    )
}

/// Resetting a paid, undelivered order keeps the state sound.
pub proof fn resetting_keeps_sound(s: Ledger, i: int, now: i64)
    requires
        s.sound(),
        0 <= i < s.orders.len(),
        s.orders[i].status is Paid,
        !s.orders[i].fulfilled,
    ensures
        s.reopening(s.orders[i].order_id) is Ok,
        s.after_reopening(s.orders[i].order_id, now).well_formed(),
        s.after_reopening(s.orders[i].order_id, now).adjustment(
            s.orders[i].account_id,
            0,
            -(s.orders[i].amount as int),
            s.orders[i].amount as int,
            now,
        ) is Ok,
        reset(s, i, now).sound(),
        reset(s, i, now).orders == s.orders.update(
            i,
            OrderView { status: OrderStatus::Claimed, updated_at: now, ..s.orders[i] },
        ),
        reset(s, i, now).links == s.links,
        reset(s, i, now).payments == s.payments,
        reset(s, i, now).accounts == s.accounts.update(
            s.orders[i].account_id - 1,
            Account {
                debits: (s.account(s.orders[i].account_id).debits - s.orders[i].amount) as u128,
                pending: (s.account(s.orders[i].account_id).pending + s.orders[i].amount) as u128,
                updated_at: now,
                ..s.account(s.orders[i].account_id)
            },
        ),
{
    let o = s.orders[i];
    let a = o.account_id;
    order_position_is_unique(s, i, o.order_id);
    let row = OrderView { status: OrderStatus::Claimed, updated_at: now, ..o };
    let t1 = s.put_order(i, row);
    assert(s.after_reopening(o.order_id, now) == t1);
    assert(t1.well_formed());
    assert(s.has_account(a));
    assert(s.account_balanced(a));
    sum_covers_each(debits(s.orders, a), i);
    order_totals_after_update(s.orders, i, row, a);
    totals_fit(t1.orders, s.payments, a);
    rows_leave_room(s.orders.len());
    let acc = s.account(a);
    let acc2 = Account {
        debits: (acc.debits - o.amount) as u128,
        pending: (acc.pending + o.amount) as u128,
        updated_at: now,
        ..acc
    };
    assert(t1.adjustment(a, 0, -(o.amount as int), o.amount as int, now) == Ok::<
        Account,
        OrderFlowError,
    >(acc2));
    let t2 = t1.put_account(a, acc2);
    assert(reset(s, i, now) == t2);
    consistent_carries_over(s, t2);
    assert forall|b: i64| t2.has_account(b) implies #[trigger] t2.account_balanced(b) by {
        assert(s.has_account(b));
        assert(s.account_balanced(b));
        order_totals_after_update(s.orders, i, row, b);
    }
}

/// What an administrator's reset does: it is refused where the order is
/// unknown, not paid, or delivered; otherwise the order is claimed again
/// and its amount goes back from the debits of its account to its pending
/// value.
pub open spec fn reset_order_step(s: Ledger, order_id: Seq<char>, now: i64) -> Step {
    match s.reopening(order_id) {
        Err(e) => refused(s, e),
        Ok(_) => Step { ledger: reset(s, s.order_position(order_id).unwrap(), now), result: Ok(Seq::empty()) },
    }
}

pub proof fn reset_order_keeps_sound(s: Ledger, order_id: Seq<char>, now: i64)
    requires
        s.sound(),
    ensures
        reset_order_step(s, order_id, now).ledger.sound(),
        reset_order_step(s, order_id, now).result is Err ==> reset_order_step(
            s,
            order_id,
            now,
        ).ledger == s,
{
    if s.reopening(order_id) is Ok {
        let i = s.order_position(order_id).unwrap();
        assert(s.holds_order(i, order_id));
        resetting_keeps_sound(s, i, now);
    }
}

/// What marking an order as delivered does: it is refused where the order
/// is unknown or not paid; otherwise the order is marked.
pub open spec fn fulfil_order_step(s: Ledger, order_id: Seq<char>) -> Step {
    match s.fulfilment(order_id) {
        Err(e) => refused(s, e),
        Ok(_) => Step { ledger: s.after_fulfilment(order_id), result: Ok(Seq::empty()) },
    }
}

pub proof fn fulfil_order_keeps_sound(s: Ledger, order_id: Seq<char>)
    requires
        s.sound(),
    ensures
        fulfil_order_step(s, order_id).ledger.sound(),
        fulfil_order_step(s, order_id).result is Err ==> fulfil_order_step(s, order_id).ledger
            == s,
{
    if s.fulfilment(order_id) is Ok {
        let i = s.order_position(order_id).unwrap();
        assert(s.holds_order(i, order_id));
        let row = OrderView { fulfilled: true, ..s.orders[i] };
        let t = s.put_order(i, row);
        assert(t.well_formed());
        consistent_carries_over(s, t);
        assert forall|b: i64| t.has_account(b) implies #[trigger] t.account_balanced(b) by {
            assert(s.has_account(b));
            assert(s.account_balanced(b));
            order_totals_after_update(s.orders, i, row, b);
        }
    }
}

// -------------------------------------------------------------------
// A credit note
// -------------------------------------------------------------------
/// The transaction id of a credit note: the customer, the amount and the
/// time make it.
pub open spec fn credit_note_txid(note: CreditNoteView, now: i64) -> Seq<char> {
    "credit_note_"@ + note.customer_id + ":"@ + decimal(note.amount as nat) + ":"@ + signed_decimal(
        now as int,
    )
}

/// The address that stands for a customer as the sender of a credit note.
/// No wallet has such an address.
pub open spec fn dummy_address(customer: Seq<char>) -> Seq<char> {
    "dummy_"@ + customer
}

pub open spec fn credit_note_memo(note: CreditNoteView) -> Seq<char> {
    "Credit note: "@ + (match note.reason {
        Some(r) => r,
        None => "No reason given"@,
    })
}

/// The row for a credit note: a manual payment, confirmed from the start.
pub open spec fn credit_row(note: CreditNoteView, account: i64, now: i64) -> PaymentView {
    PaymentView {
        txid: credit_note_txid(note, now),
        sender: dummy_address(note.customer_id),
        account_id: account,
        amount: note.amount,
        memo: Some(credit_note_memo(note)),
        order_id: None,
        payment_type: PaymentType::Manual,
        status: TransferStatus::Confirmed,
        created_at: now,
    }
}

/// The state with a new row for a confirmed payment and its amount on the
/// credits of its account.
pub open spec fn with_credit(r: Ledger, row: PaymentView, now: i64) -> Ledger {
    r.add_payment(row).after_adjustment(row.account_id, row.amount as int, 0, 0, now)
}

/// Storing a confirmed payment under a new transaction id keeps the state
/// sound.
pub proof fn crediting_keeps_sound(r: Ledger, row: PaymentView, now: i64)
    requires
        r.sound(),
        r.has_account(row.account_id),
        r.payment_position(row.txid) is None,
        r.payments.len() < i64::MAX,
        row.status is Confirmed,
        r.resolve(IdentityKind::WalletAddress, row.sender) == Some(row.account_id),
    ensures
        r.payment_insertion(row) == Ok::<bool, OrderFlowError>(true),
        r.after_payment_insertion(row) == r.add_payment(row),
        r.add_payment(row).well_formed(),
        r.add_payment(row).adjustment(row.account_id, row.amount as int, 0, 0, now) is Ok,
        with_credit(r, row, now).sound(),
        with_credit(r, row, now).orders == r.orders,
        with_credit(r, row, now).payments == r.payments.push(row),
        with_credit(r, row, now).has_account(row.account_id),
        with_credit(r, row, now).links == r.links,
        with_credit(r, row, now).accounts == r.accounts.update(
            row.account_id - 1,
            Account {
                credits: (r.account(row.account_id).credits + row.amount) as u128,
                updated_at: now,
                ..r.account(row.account_id)
            },
        ),
{
    let a = row.account_id;
    let t1 = r.add_payment(row);
    assert(forall|i: int| !r.holds_payment(i, row.txid));
    assert forall|i: int, j: int| 0 <= i < j < t1.payments.len() implies (
    #[trigger] t1.payments[i]).txid != (#[trigger] t1.payments[j]).txid by {
        if j == r.payments.len() {
            assert(!r.holds_payment(i, row.txid));
        }
    }
    assert(t1.well_formed());
    assert(r.account_balanced(a));
    totals_fit(r.orders, r.payments, a);
    rows_leave_room(r.payments.len());
    let acc = r.account(a);
    let acc2 = Account { credits: (acc.credits + row.amount) as u128, updated_at: now, ..acc };
    assert(t1.adjustment(a, row.amount as int, 0, 0, now) == Ok::<Account, OrderFlowError>(acc2));
    let t2 = t1.put_account(a, acc2);
    assert(with_credit(r, row, now) == t2);
    assert(t2.well_formed());
    assert forall|i: int| 0 <= i < t2.payments.len() implies t2.resolve(
        IdentityKind::WalletAddress,
        (#[trigger] t2.payments[i]).sender,
    ) == Some(t2.payments[i].account_id) by {
        resolve_depends_on_links(r, t2, IdentityKind::WalletAddress, t2.payments[i].sender);
        if i < r.payments.len() {
            assert(t2.payments[i] == r.payments[i]);
        }
    }
    assert forall|b: i64| t2.has_account(b) implies #[trigger] t2.account_balanced(b) by {
        assert(r.has_account(b));
        assert(r.account_balanced(b));
        payment_totals_after_push(r.payments, row, b);
    }
}

/// What a credit note does. One that was issued already, to the same
/// customer, of the same amount and at the same time, changes nothing.
/// Otherwise the customer's account is resolved, a confirmed manual payment
/// is stored, its amount is added to the account's credits, and the matcher
/// runs.
pub open spec fn credit_note_step(s: Ledger, note: CreditNoteView, now: i64) -> Step {
    if s.payment_position(credit_note_txid(note, now)) is Some {
        unchanged(s)
    } else if s.payments.len() >= i64::MAX {
        refused(s, OrderFlowError::StoreFull)
    } else {
        match s.resolved_account(Some(note.customer_id), Some(dummy_address(note.customer_id))) {
            Err(e) => refused(s, e),
            Ok(a) => {
                let credited = with_credit(
                    s.after_resolving(
                        Some(note.customer_id),
                        Some(dummy_address(note.customer_id)),
                        now,
                    ),
                    credit_row(note, a, now),
                    now,
                );
                Step {
                    ledger: settle(credited, a, now),
                    result: Ok(
                        seq![EventView::PaymentConfirmed(credit_note_txid(note, now))]
                            + paid_events(settled(credited, a, now)),
                    ),
                }
            },
        }
    }
}

pub proof fn credit_note_keeps_sound(s: Ledger, note: CreditNoteView, now: i64)
    requires
        s.sound(),
    ensures
        credit_note_step(s, note, now).ledger.sound(),
        credit_note_step(s, note, now).result is Err ==> credit_note_step(s, note, now).ledger
            == s,
        credit_note_step(s, note, now).ledger.payment_position(credit_note_txid(note, now)) is Some
            || credit_note_step(s, note, now).result is Err,
{
    let txid = credit_note_txid(note, now);
    let address = dummy_address(note.customer_id);
    if s.payment_position(txid) is None && s.payments.len() < i64::MAX {
        match s.resolved_account(Some(note.customer_id), Some(address)) {
            Err(e) => {},
            Ok(a) => {
                let r = s.after_resolving(Some(note.customer_id), Some(address), now);
                resolving_keeps_sound(s, Some(note.customer_id), Some(address), now);
                payment_position_depends_on_ids(s, r, txid);
                crediting_keeps_sound(r, credit_row(note, a, now), now);
                let credited = with_credit(r, credit_row(note, a, now), now);
                settle_properties(credited, a, now);
                let n = r.payments.len() as int;
                assert(credited.payments == r.payments.push(credit_row(note, a, now)));
                assert(credited.holds_payment(n, txid));
                payment_position_is_unique(credited, n, txid);
                payment_position_depends_on_ids(credited, settle(credited, a, now), txid);
            },
        }
    }
}

// -------------------------------------------------------------------
// The transactions of the database
// -------------------------------------------------------------------
/// What a transaction of the database leaves behind: the state, and the
/// account that it was about or the reason why nothing was done.
pub struct Intake {
    pub ledger: Ledger,
    pub result: Result<i64, OrderFlowError>,
}

/// What storing an order for its customer does: a known id changes
/// nothing and gives the account that holds the order; otherwise the
/// account is resolved, the order is stored and its amount added to the
/// account's pending value. The matcher does not run.
pub open spec fn order_intake(s: Ledger, o: NewOrderView, now: i64) -> Intake {
    match s.order_position(o.order_id) {
        Some(i) => Intake { ledger: s, result: Ok(s.orders[i].account_id) },
        None => if o.claim is Some && !o.claim.unwrap().verified {
            Intake { ledger: s, result: Err(OrderFlowError::InvalidSignature) }
        } else if s.orders.len() >= i64::MAX {
            Intake { ledger: s, result: Err(OrderFlowError::StoreFull) }
        } else {
            match s.resolved_account(o.customer_id, claim_address(o.claim)) {
                Err(e) => Intake { ledger: s, result: Err(e) },
                Ok(a) => Intake {
                    ledger: with_order(
                        s.after_resolving(o.customer_id, claim_address(o.claim), now),
                        order_row(o, a, now),
                        now,
                    ),
                    result: Ok(a),
                },
            }
        },
    }
}

/// What storing a payment for its sender does: a known transaction id
/// changes nothing and gives the account that holds the payment;
/// otherwise the sender's account is resolved and the payment stored as
/// received.
pub open spec fn payment_intake(s: Ledger, p: NewPaymentView, now: i64) -> Intake {
    match s.payment_position(p.txid) {
        Some(i) => Intake { ledger: s, result: Ok(s.payments[i].account_id) },
        None => if s.payments.len() >= i64::MAX {
            Intake { ledger: s, result: Err(OrderFlowError::StoreFull) }
        } else {
            match s.resolved_account(None, Some(p.sender)) {
                Err(e) => Intake { ledger: s, result: Err(e) },
                Ok(a) => Intake {
                    ledger: s.after_resolving(None, Some(p.sender), now).add_payment(
                        payment_row(p, a, now),
                    ),
                    result: Ok(a),
                },
            }
        },
    }
}

/// A new order is stored for its customer; then, where it came with a
/// claim, the matcher runs on the account.
pub proof fn new_order_is_intake_then_settle(s: Ledger, o: NewOrderView, now: i64)
    ensures
        new_order_step(s, o, now).ledger == (if s.order_position(o.order_id) is None
            && o.claim is Some && order_intake(s, o, now).result is Ok {
            settle(order_intake(s, o, now).ledger, order_intake(s, o, now).result.unwrap(), now)
        } else {
            order_intake(s, o, now).ledger
        }),
        new_order_step(s, o, now).result is Ok <==> order_intake(s, o, now).result is Ok,
{
}

/// Storing an order for its customer keeps the state sound.
pub proof fn order_intake_keeps_sound(s: Ledger, o: NewOrderView, now: i64)
    requires
        s.sound(),
    ensures
        order_intake(s, o, now).ledger.sound(),
        order_intake(s, o, now).result matches Ok(a) ==> order_intake(s, o, now).ledger.has_account(
            a,
        ),
        order_intake(s, o, now).result is Err ==> order_intake(s, o, now).ledger == s,
{
    match s.order_position(o.order_id) {
        Some(i) => {
            assert(s.holds_order(i, o.order_id));
        },
        None => {
            if !(o.claim is Some && !o.claim.unwrap().verified) && s.orders.len() < i64::MAX {
                match s.resolved_account(o.customer_id, claim_address(o.claim)) {
                    Err(e) => {},
                    Ok(a) => {
                        let r = s.after_resolving(o.customer_id, claim_address(o.claim), now);
                        resolving_keeps_sound(s, o.customer_id, claim_address(o.claim), now);
                        order_position_depends_on_ids(s, r, o.order_id);
                        storing_order_keeps_sound(r, order_row(o, a, now), now);
                    },
                }
            }
        },
    }
}

/// A new payment is stored for its sender, and that is all: the state
/// after it is the one in which it is stored, and it is sound.
pub proof fn new_payment_is_its_intake(s: Ledger, p: NewPaymentView, now: i64)
    requires
        s.sound(),
    ensures
        payment_intake(s, p, now).ledger.sound(),
        payment_intake(s, p, now).ledger == new_payment_step(s, p, now).ledger,
        payment_intake(s, p, now).result is Err ==> payment_intake(s, p, now).ledger == s,
{
    new_payment_keeps_sound(s, p, now);
}

/// What a change of a payment's status does in the database: it is refused
/// where the payment is unknown, or confirmed or cancelled already; a
/// confirmation adds the amount to the credits of the payment's account.
/// The matcher does not run.
pub open spec fn payment_status_step(s: Ledger, txid: Seq<char>, status: TransferStatus, now: i64) -> Ledger {
    match s.payment_update(txid, status) {
        Ok(Some(_)) => if status is Confirmed {
            confirmed(s, s.payment_position(txid).unwrap(), now)
        } else {
            s.after_payment_update(txid, status)
        },
        _ => s,
    }
}

pub proof fn payment_status_keeps_sound(s: Ledger, txid: Seq<char>, status: TransferStatus, now: i64)
    requires
        s.sound(),
    ensures
        payment_status_step(s, txid, status, now).sound(),
        status is Confirmed ==> confirm_payment_step(s, txid, now).ledger == (match s.payment_update(
            txid,
            status,
        ) {
            Ok(Some(a)) => settle(payment_status_step(s, txid, status, now), a, now),
            _ => s,
        }),
{
    match s.payment_update(txid, status) {
        Ok(Some(a)) => {
            let i = s.payment_position(txid).unwrap();
            assert(s.holds_payment(i, txid));
            if status is Confirmed {
                confirming_keeps_sound(s, i, now);
            } else {
                cancelling_payment_keeps_sound(s, i);
            }
        },
        _ => {},
    }
}

/// The order with this id can be paid from the account now: it is claimed
/// by the account and costs no more than the account can spend.
pub open spec fn payable_now(s: Ledger, account: i64, order_id: Seq<char>) -> bool {
    match s.order_position(order_id) {
        Some(i) => s.has_account(account) && crate::matcher::is_claimed_by(s.orders[i], account)
            && s.orders[i].amount <= s.account(account).spendable(),
        None => false,
    }
}

/// The state after each order of a list that can be paid when its turn
/// comes has been paid.
pub open spec fn pay_listed(s: Ledger, account: i64, ids: Seq<Seq<char>>, now: i64) -> Ledger
    decreases ids.len(),
{
    if ids.len() == 0 {
        s
    } else {
        let next = if payable_now(s, account, ids[0]) {
            crate::matcher::pay(s, s.order_position(ids[0]).unwrap(), now)
        } else {
            s
        };
        pay_listed(next, account, ids.drop_first(), now)
    }
}

/// The rows that paying a list pays, in the order of the list, as they
/// stand afterwards.
pub open spec fn paid_of_listed(s: Ledger, account: i64, ids: Seq<Seq<char>>, now: i64) -> Seq<
    OrderView,
>
    decreases ids.len(),
{
    if ids.len() == 0 {
        Seq::empty()
    } else if payable_now(s, account, ids[0]) {
        let i = s.order_position(ids[0]).unwrap();
        seq![crate::matcher::paid_row(s.orders[i], now)] + paid_of_listed(
            crate::matcher::pay(s, i, now),
            account,
            ids.drop_first(),
            now,
        )
    } else {
        paid_of_listed(s, account, ids.drop_first(), now)
    }
}

/// Paying a list keeps the state sound.
pub proof fn pay_listed_keeps_sound(s: Ledger, account: i64, ids: Seq<Seq<char>>, now: i64)
    requires
        s.sound(),
    ensures
        pay_listed(s, account, ids, now).sound(),
    decreases ids.len(),
{
    if ids.len() > 0 {
        if payable_now(s, account, ids[0]) {
            let i = s.order_position(ids[0]).unwrap();
            assert(s.holds_order(i, ids[0]));
            crate::matcher::pay_keeps_sound(s, i, now);
            pay_listed_keeps_sound(crate::matcher::pay(s, i, now), account, ids.drop_first(), now);
        } else {
            pay_listed_keeps_sound(s, account, ids.drop_first(), now);
        }
    }
}

/// The rows that the matcher would pay from the account, as they stand
/// now, in the order of paying.
pub open spec fn payable(s: Ledger, account: i64) -> Seq<OrderView> {
    let paid = settled(s, account, 0);
    Seq::new(paid.len(), |k: int| s.orders[s.order_position(paid[k].order_id).unwrap()])
}

/// Two well-formed states with the same links and as many accounts resolve
/// every pair of identities alike.
pub proof fn resolution_depends_on_links(
    s: Ledger,
    t: Ledger,
    customer: Option<Seq<char>>,
    address: Option<Seq<char>>,
)
    requires
        s.well_formed(),
        t.well_formed(),
        s.links == t.links,
        s.accounts.len() == t.accounts.len(),
    ensures
        s.resolution(customer, address) == t.resolution(customer, address),
        s.resolved_account(customer, address) == t.resolved_account(customer, address),
{
    if customer is Some {
        resolve_depends_on_links(s, t, IdentityKind::CustomerId, customer.unwrap());
    }
    if address is Some {
        resolve_depends_on_links(s, t, IdentityKind::WalletAddress, address.unwrap());
    }
}

/// A change of a payment's status leaves every payment under its
/// transaction id and in its place.
pub proof fn payment_status_keeps_ids(s: Ledger, txid: Seq<char>, status: TransferStatus, now: i64)
    requires
        s.sound(),
    ensures
        payment_status_step(s, txid, status, now).payments.len() == s.payments.len(),
        forall|i: int|
            0 <= i < s.payments.len() ==> (#[trigger] s.payments[i]).txid == payment_status_step(
                s,
                txid,
                status,
                now,
            ).payments[i].txid,
{
    match s.payment_update(txid, status) {
        Ok(Some(a)) => {
            let i = s.payment_position(txid).unwrap();
            assert(s.holds_payment(i, txid));
            if status is Confirmed {
                confirming_keeps_sound(s, i, now);
                payment_position_is_unique(s, i, s.payments[i].txid);
            }
        },
        _ => {},
    }
}

} // verus!
