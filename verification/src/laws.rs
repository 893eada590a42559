//! What holds of every state that the engine can reach, and of its steps
//! taken together.

use vstd::prelude::*;
use crate::journal::EntryView;
use crate::journal::CommandView;
use crate::journal::apply;
use crate::journal::replayed;
use crate::journal::replayed_is_sound;
use crate::ledger::Ledger;
use crate::ledger::each_key_has_one_account;
use crate::matcher::settle;
use crate::matcher::is_claimed_by;
use crate::matcher::claimed_total;
use crate::matcher::claimed_total_after_push;
use crate::matcher::settle_effect;
use crate::matcher::settle_with_enough;
use crate::matcher::paid_row;
use crate::steps::confirm_payment_step;
use crate::steps::resolution_depends_on_links;
use crate::records::NewOrderView;
use crate::records::NewPaymentView;
use crate::status::IdentityKind;
use crate::steps::claim_address;
use crate::steps::order_row;
use crate::steps::with_order;
use crate::steps::with_credit;
use crate::steps::credit_row;
use crate::steps::credit_note_txid;
use crate::steps::dummy_address;
use crate::steps::confirmed;
use crate::steps::claimed;
use crate::steps::new_order_step;
use crate::steps::new_payment_step;
use crate::steps::new_order_keeps_sound;
use crate::steps::new_payment_keeps_sound;
use crate::steps::resolving_keeps_sound;
use crate::steps::storing_order_keeps_sound;
use crate::steps::crediting_keeps_sound;
use crate::steps::confirming_keeps_sound;
use crate::steps::closing_keeps_sound;
use crate::steps::claiming_keeps_sound;
use crate::steps::resetting_keeps_sound;
use crate::steps::expire_rows_properties;
use crate::steps::order_position_depends_on_ids;
use crate::steps::payment_position_depends_on_ids;
use crate::steps::cancelling_payment_keeps_sound;
use crate::records::OrderView;
use crate::records::PaymentView;
use crate::status::OrderStatus;
use crate::status::TransferStatus;
use crate::totals::paid_total;
use crate::totals::open_total;
use crate::totals::confirmed_total;

verus! {

/// In every state that a log leads to, every account has received at least
/// what it has spent, and owes nothing negative.
pub proof fn accounts_stay_solvent(log: Seq<EntryView>, id: i64)
    requires
        replayed(log).has_account(id),
    ensures
        replayed(log).account(id).credits >= replayed(log).account(id).debits,
        replayed(log).account(id).spendable() >= 0,
        replayed(log).account(id).pending >= 0,
{
    replayed_is_sound(log);
    assert(replayed(log).account_balanced(id));
}

/// In every state that a log leads to, the debits of every account are the
/// amounts of its paid orders, added up.
pub proof fn debits_are_the_paid_orders(log: Seq<EntryView>, id: i64)
    requires
        replayed(log).has_account(id),
    ensures
        replayed(log).account(id).debits == paid_total(replayed(log).orders, id),
{
    replayed_is_sound(log);
    assert(replayed(log).account_balanced(id));
}

/// In every state that a log leads to, the pending value of every account
/// is the amounts of its unclaimed and claimed orders, added up.
pub proof fn pending_is_the_open_orders(log: Seq<EntryView>, id: i64)
    requires
        replayed(log).has_account(id),
    ensures
        replayed(log).account(id).pending == open_total(replayed(log).orders, id),
{
    replayed_is_sound(log);
    assert(replayed(log).account_balanced(id));
}

/// In every state that a log leads to, the credits of every account are
/// the amounts of the confirmed payments of its senders, added up; and the
/// account of a payment is the one that its sender's address resolves to.
pub proof fn credits_are_the_confirmed_payments(log: Seq<EntryView>, id: i64)
    requires
        replayed(log).has_account(id),
    ensures
        replayed(log).account(id).credits == confirmed_total(replayed(log).payments, id),
        forall|i: int|
            0 <= i < replayed(log).payments.len() ==> replayed(log).resolve(
                IdentityKind::WalletAddress,
                (#[trigger] replayed(log).payments[i]).sender,
            ) == Some(replayed(log).payments[i].account_id),
{
    replayed_is_sound(log);
    assert(replayed(log).account_balanced(id));
}

/// In every state that a log leads to, each key resolves to exactly one
/// account, and that account exists.
pub proof fn each_key_resolves_to_one_account(log: Seq<EntryView>, i: int)
    requires
        0 <= i < replayed(log).links.len(),
    ensures
        replayed(log).resolve(replayed(log).links[i].kind, replayed(log).links[i].key) == Some(
            replayed(log).links[i].account_id,
        ),
        replayed(log).has_account(replayed(log).links[i].account_id),
        forall|j: int|
            0 <= j < replayed(log).links.len() && j != i ==> !(replayed(log).links[j].kind
                == replayed(log).links[i].kind && replayed(log).links[j].key == replayed(
                log,
            ).links[i].key),
{
    replayed_is_sound(log);
    each_key_has_one_account(replayed(log), i);
    let s = replayed(log);
    assert forall|j: int| 0 <= j < s.links.len() && j != i implies !(s.links[j].kind
        == s.links[i].kind && s.links[j].key == s.links[i].key) by {
        if j < i {
            assert(!(s.links[j].kind == s.links[i].kind && s.links[j].key == s.links[i].key));
        } else {
            assert(!(s.links[i].kind == s.links[j].kind && s.links[i].key == s.links[j].key));
        }
    }
}

/// An order in a terminal status keeps its amount and its account, whatever
/// the engine is asked to do.
pub proof fn terminal_orders_keep_amount_and_account(s: Ledger, e: EntryView, i: int)
    requires
        s.sound(),
        0 <= i < s.orders.len(),
        s.orders[i].status.is_terminal(),
    ensures
        i < apply(s, e).ledger.orders.len(),
        apply(s, e).ledger.orders[i].order_id == s.orders[i].order_id,
        apply(s, e).ledger.orders[i].amount == s.orders[i].amount,
        apply(s, e).ledger.orders[i].account_id == s.orders[i].account_id,
{
    commands_change_little(s, e);
    assert(order_may_become(
        s.orders[i],
        apply(s, e).ledger.orders[i],
        e.command is ResetOrder,
    ));
}

/// Taking the same order twice is taking it once: the second time changes
/// nothing and announces nothing.
pub proof fn new_order_is_idempotent(s: Ledger, o: NewOrderView, first: i64, second: i64)
    requires
        s.sound(),
    ensures
        new_order_step(new_order_step(s, o, first).ledger, o, second).ledger == new_order_step(
            s,
            o,
            first,
        ).ledger,
        new_order_step(s, o, first).result is Ok ==> new_order_step(
            new_order_step(s, o, first).ledger,
            o,
            second,
        ).result == Ok::<Seq<crate::events::EventView>, crate::outcome::OrderFlowError>(
            Seq::empty(),
        ),
{
    new_order_keeps_sound(s, o, first);
}

/// Taking the same payment twice is taking it once: the second time changes
/// nothing and announces nothing.
pub proof fn new_payment_is_idempotent(s: Ledger, p: NewPaymentView, first: i64, second: i64)
    requires
        s.sound(),
    ensures
        new_payment_step(new_payment_step(s, p, first).ledger, p, second).ledger
            == new_payment_step(s, p, first).ledger,
        new_payment_step(s, p, first).result is Ok ==> new_payment_step(
            new_payment_step(s, p, first).ledger,
            p,
            second,
        ).result == Ok::<Seq<crate::events::EventView>, crate::outcome::OrderFlowError>(
            Seq::empty(),
        ),
{
    new_payment_keeps_sound(s, p, first);
}

/// The ids of the paid orders.
pub open spec fn paid_orders(s: Ledger) -> Set<Seq<char>> {
    Set::new(|id: Seq<char>| exists|i: int| s.holds_order(i, id) && s.orders[i].status is Paid)
}

/// A received payment and a new order for the same account, with credit
/// for everything that the account has claimed once the payment is
/// confirmed: whether the confirmation or the order comes first, the same
/// orders end up paid, and every order ends in the same status.
pub proof fn confirmation_and_order_commute(
    s: Ledger,
    txid: Seq<char>,
    o: NewOrderView,
    first: i64,
    second: i64,
)
    requires
        s.sound(),
        s.payment_position(txid) is Some,
        s.payments[s.payment_position(txid).unwrap()].status is Received,
        s.order_position(o.order_id) is None,
        o.claim is Some ==> o.claim.unwrap().verified,
        s.orders.len() < i64::MAX,
        s.resolved_account(o.customer_id, claim_address(o.claim)) == Ok::<
            i64,
            crate::outcome::OrderFlowError,
        >(s.payments[s.payment_position(txid).unwrap()].account_id),
        s.account(s.payments[s.payment_position(txid).unwrap()].account_id).spendable()
            + s.payments[s.payment_position(txid).unwrap()].amount >= claimed_total(
            s.orders,
            s.payments[s.payment_position(txid).unwrap()].account_id,
        ) + (if o.claim is Some {
            o.amount as int
        } else {
            0
        }),
    ensures
        ({
            let order_first = confirm_payment_step(new_order_step(s, o, first).ledger, txid, second).ledger;
            let payment_first = new_order_step(confirm_payment_step(s, txid, first).ledger, o, second).ledger;
            &&& order_first.orders.len() == payment_first.orders.len()
            &&& forall|i: int|
                0 <= i < order_first.orders.len() ==> {
                    &&& (#[trigger] order_first.orders[i]).order_id
                        == payment_first.orders[i].order_id
                    &&& order_first.orders[i].status == payment_first.orders[i].status
                    &&& order_first.orders[i].amount == payment_first.orders[i].amount
                    &&& order_first.orders[i].account_id == payment_first.orders[i].account_id
                }
            &&& paid_orders(order_first) == paid_orders(payment_first)
        }),
{
    let p = s.payment_position(txid).unwrap();
    assert(s.holds_payment(p, txid));
    let a = s.payments[p].account_id;
    let amount = s.payments[p].amount;
    let customer = o.customer_id;
    let address = claim_address(o.claim);
    let n = s.orders.len() as int;
    assert(s.has_account(a));

    // The order first, then the confirmation.
    resolving_keeps_sound(s, customer, address, first);
    let r1 = s.after_resolving(customer, address, first);
    order_position_depends_on_ids(s, r1, o.order_id);
    let row1 = order_row(o, a, first);
    storing_order_keeps_sound(r1, row1, first);
    let stored1 = with_order(r1, row1, first);
    claimed_total_after_push(r1.orders, row1, a);
    assert(stored1.has_account(a));
    assert(stored1.account(a).spendable() == s.account(a).spendable());
    if o.claim is Some {
        settle_effect(stored1, a, first);
    }
    let m = new_order_step(s, o, first).ledger;
    assert(m == if o.claim is Some {
        settle(stored1, a, first)
    } else {
        stored1
    });
    assert(m.payments == s.payments);
    assert(m.sound());
    payment_position_depends_on_ids(s, m, txid);
    assert(m.holds_payment(p, txid));
    confirming_keeps_sound(m, p, second);
    let credited1 = confirmed(m, p, second);
    assert(credited1.orders == m.orders);
    settle_with_enough(credited1, a, second);
    let order_first = settle(credited1, a, second);
    assert(order_first == confirm_payment_step(m, txid, second).ledger);

    // The confirmation first, then the order.
    confirming_keeps_sound(s, p, first);
    let credited2 = confirmed(s, p, first);
    settle_with_enough(credited2, a, first);
    settle_effect(credited2, a, first);
    let k = settle(credited2, a, first);
    assert(k == confirm_payment_step(s, txid, first).ledger);
    order_position_depends_on_ids(s, k, o.order_id);
    resolution_depends_on_links(s, k, customer, address);
    resolving_keeps_sound(k, customer, address, second);
    let r2 = k.after_resolving(customer, address, second);
    order_position_depends_on_ids(k, r2, o.order_id);
    let row2 = order_row(o, a, second);
    storing_order_keeps_sound(r2, row2, second);
    let stored2 = with_order(r2, row2, second);
    claimed_total_after_push(r2.orders, row2, a);
    assert forall|i: int| 0 <= i < n implies !is_claimed_by(#[trigger] k.orders[i], a) by {
        if is_claimed_by(s.orders[i], a) {
            assert(k.orders[i] == paid_row(s.orders[i], first));
        } else {
            assert(k.orders[i] == s.orders[i]);
        }
    }
    none_claimed_costs_nothing(k.orders, a);
    assert(stored2.has_account(a));
    assert(stored2.account(a).spendable() == k.account(a).spendable());
    if o.claim is Some {
        settle_with_enough(stored2, a, second);
    }
    let payment_first = new_order_step(k, o, second).ledger;
    assert(payment_first == if o.claim is Some {
        settle(stored2, a, second)
    } else {
        stored2
    });

    assert(order_first.orders.len() == n + 1);
    assert(payment_first.orders.len() == n + 1);
    assert forall|i: int| 0 <= i < order_first.orders.len() implies {
        &&& (#[trigger] order_first.orders[i]).order_id == payment_first.orders[i].order_id
        &&& order_first.orders[i].status == payment_first.orders[i].status
        &&& order_first.orders[i].amount == payment_first.orders[i].amount
        &&& order_first.orders[i].account_id == payment_first.orders[i].account_id
    } by {
        assert(stored1.orders[i] == if i < n {
            s.orders[i]
        } else {
            row1
        });
        assert(stored2.orders[i] == if i < n {
            k.orders[i]
        } else {
            row2
        });
        assert(m.orders[i] == stored1.orders[i] || (is_claimed_by(stored1.orders[i], a)
            && m.orders[i] == paid_row(stored1.orders[i], first)));
        assert(order_first.orders[i] == if is_claimed_by(m.orders[i], a) {
            paid_row(m.orders[i], second)
        } else {
            m.orders[i]
        });
        if i < n {
            assert(k.orders[i] == if is_claimed_by(s.orders[i], a) {
                paid_row(s.orders[i], first)
            } else {
                s.orders[i]
            });
        }
        if o.claim is Some {
            assert(payment_first.orders[i] == if is_claimed_by(stored2.orders[i], a) {
                paid_row(stored2.orders[i], second)
            } else {
                stored2.orders[i]
            });
        }
    }
    assert(paid_orders(order_first) =~= paid_orders(payment_first)) by {
        assert forall|id: Seq<char>| paid_orders(order_first).contains(id) == paid_orders(
            payment_first,
        ).contains(id) by {
            if paid_orders(order_first).contains(id) {
                let i = choose|i: int|
                    order_first.holds_order(i, id) && order_first.orders[i].status is Paid;
                assert(payment_first.holds_order(i, id) && payment_first.orders[i].status is Paid);
            }
            if paid_orders(payment_first).contains(id) {
                let i = choose|i: int|
                    payment_first.holds_order(i, id) && payment_first.orders[i].status is Paid;
                assert(order_first.orders[i].order_id == payment_first.orders[i].order_id);
                assert(order_first.holds_order(i, id) && order_first.orders[i].status is Paid);
            }
        }
    }
}

proof fn none_claimed_costs_nothing(orders: Seq<crate::records::OrderView>, account: i64)
    requires
        forall|i: int| 0 <= i < orders.len() ==> !is_claimed_by(#[trigger] orders[i], account),
    ensures
        claimed_total(orders, account) == 0,
{
    let v = crate::matcher::claimed_amounts(orders, account);
    assert forall|i: int| 0 <= i < v.len() implies v[i] == 0 by {
        assert(!is_claimed_by(orders[i], account));
    }
    crate::totals::sum_of_zeros(v);
}

/// How the status of an order may differ after a command: not at all, by
/// an edge of the lifecycle, by a claim that was paid at once, or by an
/// administrator's reset.
pub open spec fn status_may_become(from: OrderStatus, to: OrderStatus, reset: bool) -> bool {
    ||| from == to
    ||| from.can_become(to)
    ||| from is Unclaimed && to is Paid
    ||| reset && from is Paid && to is Claimed
}

/// How a payment may differ after a command: in its status only, and only
/// from received to confirmed or cancelled.
pub open spec fn payment_may_become(from: PaymentView, to: PaymentView) -> bool {
    ||| to == from
    ||| from.status is Received && !(to.status is Received) && to == (PaymentView {
        status: to.status,
        ..from
    })
}

/// How an order may differ after a command: in its status, the time of its
/// last change and the mark of delivery; and in its account while it is
/// unclaimed.
pub open spec fn order_may_become(from: OrderView, to: OrderView, reset: bool) -> bool {
    &&& to.order_id == from.order_id
    &&& to.customer_id == from.customer_id
    &&& to.amount == from.amount
    &&& to.memo == from.memo
    &&& to.created_at == from.created_at
    &&& to.account_id == from.account_id || from.status is Unclaimed
    &&& status_may_become(from.status, to.status, reset)
}

/// What a command can do to what is there: accounts stay and never lose
/// credits, nor debits but by a reset; links stay as they are; payments and
/// orders stay in their rows and change only as their lifecycle allows.
pub open spec fn changes_little(s: Ledger, t: Ledger, reset: bool) -> bool {
    &&& forall|b: i64|
        s.has_account(b) ==> {
            &&& t.has_account(b)
            &&& (#[trigger] t.account(b)).id == s.account(b).id
            &&& t.account(b).created_at == s.account(b).created_at
            &&& t.account(b).credits >= s.account(b).credits
            &&& t.account(b).debits >= s.account(b).debits || reset
        }
    &&& t.links.len() >= s.links.len()
    &&& forall|i: int| 0 <= i < s.links.len() ==> #[trigger] t.links[i] == s.links[i]
    &&& t.payments.len() >= s.payments.len()
    &&& forall|i: int|
        0 <= i < s.payments.len() ==> payment_may_become(s.payments[i], #[trigger] t.payments[i])
    &&& t.orders.len() >= s.orders.len()
    &&& forall|i: int|
        0 <= i < s.orders.len() ==> order_may_become(s.orders[i], #[trigger] t.orders[i], reset)
}

proof fn new_order_changes_little(s: Ledger, o: NewOrderView, now: i64)
    requires
        s.sound(),
    ensures
        changes_little(s, new_order_step(s, o, now).ledger, false),
{
    let t = new_order_step(s, o, now).ledger;
    if s.order_position(o.order_id) is None && !(o.claim is Some && !o.claim.unwrap().verified)
        && s.orders.len() < i64::MAX {
        match s.resolved_account(o.customer_id, claim_address(o.claim)) {
            Err(_) => {},
            Ok(a) => {
                let r = s.after_resolving(o.customer_id, claim_address(o.claim), now);
                resolving_keeps_sound(s, o.customer_id, claim_address(o.claim), now);
                order_position_depends_on_ids(s, r, o.order_id);
                storing_order_keeps_sound(r, order_row(o, a, now), now);
                let stored = with_order(r, order_row(o, a, now), now);
                if o.claim is Some {
                    settle_effect(stored, a, now);
                }
                assert forall|b: i64| s.has_account(b) implies {
                    &&& t.has_account(b)
                    &&& (#[trigger] t.account(b)).id == s.account(b).id
                    &&& t.account(b).created_at == s.account(b).created_at
                    &&& t.account(b).credits >= s.account(b).credits
                    &&& t.account(b).debits >= s.account(b).debits
                } by {
                    assert(r.account(b) == s.account(b));
                    assert(stored.has_account(b));
                    assert(stored.account(b).credits == r.account(b).credits);
                    assert(stored.account(b).debits == r.account(b).debits);
                }
                assert forall|i: int| 0 <= i < s.orders.len() implies order_may_become(
                    s.orders[i],
                    #[trigger] t.orders[i],
                    false,
                ) by {
                    assert(stored.orders[i] == s.orders[i]);
                }
                assert forall|i: int| 0 <= i < s.links.len() implies #[trigger] t.links[i]
                    == s.links[i] by {
                    assert(r.links[i] == s.links[i]);
                }
            },
        }
    }
}

proof fn new_payment_changes_little(s: Ledger, p: NewPaymentView, now: i64)
    requires
        s.sound(),
    ensures
        changes_little(s, new_payment_step(s, p, now).ledger, false),
{
    let t = new_payment_step(s, p, now).ledger;
    if s.payment_position(p.txid) is None && s.payments.len() < i64::MAX {
        match s.resolved_account(None, Some(p.sender)) {
            Err(_) => {},
            Ok(a) => {
                resolving_keeps_sound(s, None, Some(p.sender), now);
                let r = s.after_resolving(None, Some(p.sender), now);
                assert forall|b: i64| s.has_account(b) implies {
                    &&& t.has_account(b)
                    &&& (#[trigger] t.account(b)).id == s.account(b).id
                    &&& t.account(b).created_at == s.account(b).created_at
                    &&& t.account(b).credits >= s.account(b).credits
                    &&& t.account(b).debits >= s.account(b).debits
                } by {
                    assert(r.account(b) == s.account(b));
                }
                assert forall|i: int| 0 <= i < s.links.len() implies #[trigger] t.links[i]
                    == s.links[i] by {
                    assert(r.links[i] == s.links[i]);
                }
            },
        }
    }
}

proof fn confirm_payment_changes_little(s: Ledger, txid: Seq<char>, now: i64)
    requires
        s.sound(),
    ensures
        changes_little(s, confirm_payment_step(s, txid, now).ledger, false),
{
    let t = confirm_payment_step(s, txid, now).ledger;
    match s.payment_update(txid, TransferStatus::Confirmed) {
        Ok(Some(a)) => {
            let i = s.payment_position(txid).unwrap();
            assert(s.holds_payment(i, txid));
            confirming_keeps_sound(s, i, now);
            let credited = confirmed(s, i, now);
            settle_effect(credited, a, now);
            assert forall|b: i64| s.has_account(b) implies {
                &&& t.has_account(b)
                &&& (#[trigger] t.account(b)).id == s.account(b).id
                &&& t.account(b).created_at == s.account(b).created_at
                &&& t.account(b).credits >= s.account(b).credits
                &&& t.account(b).debits >= s.account(b).debits
            } by {
                assert(credited.has_account(b));
                assert(credited.account(b).debits == s.account(b).debits);
                assert(credited.account(b).credits >= s.account(b).credits);
            }
        },
        _ => {},
    }
}

proof fn cancel_payment_changes_little(s: Ledger, txid: Seq<char>)
    requires
        s.sound(),
    ensures
        changes_little(s, crate::steps::cancel_payment_step(s, txid).ledger, false),
{
    match s.payment_update(txid, TransferStatus::Cancelled) {
        Ok(Some(a)) => {
            let i = s.payment_position(txid).unwrap();
            assert(s.holds_payment(i, txid));
            cancelling_payment_keeps_sound(s, i);
        },
        _ => {},
    }
}

proof fn claim_order_changes_little(
    s: Ledger,
    id: Seq<char>,
    c: crate::records::WalletClaimView,
    now: i64,
)
    requires
        s.sound(),
    ensures
        changes_little(s, crate::steps::claim_order_step(s, id, c, now).ledger, false),
{
    let t = crate::steps::claim_order_step(s, id, c, now).ledger;
    if c.verified && s.order_position(id) is Some {
        let i = s.order_position(id).unwrap();
        assert(s.holds_order(i, id));
        if s.orders[i].status is Unclaimed {
            match s.resolved_account(s.orders[i].customer_id, Some(c.address)) {
                Err(_) => {},
                Ok(a) => {
                    resolving_keeps_sound(s, s.orders[i].customer_id, Some(c.address), now);
                    let r = s.after_resolving(s.orders[i].customer_id, Some(c.address), now);
                    claiming_keeps_sound(r, i, a, now);
                    let held = claimed(r, i, a, now);
                    settle_effect(held, a, now);
                    assert forall|b: i64| s.has_account(b) implies {
                        &&& t.has_account(b)
                        &&& (#[trigger] t.account(b)).id == s.account(b).id
                        &&& t.account(b).created_at == s.account(b).created_at
                        &&& t.account(b).credits >= s.account(b).credits
                        &&& t.account(b).debits >= s.account(b).debits
                    } by {
                        assert(r.account(b) == s.account(b));
                        assert(held.has_account(b));
                        assert(held.account(b).credits == r.account(b).credits);
                    }
                    assert forall|k: int| 0 <= k < s.orders.len() implies order_may_become(
                        s.orders[k],
                        #[trigger] t.orders[k],
                        false,
                    ) by {
                        assert(r.orders[k] == s.orders[k]);
                    }
                    assert forall|k: int| 0 <= k < s.links.len() implies #[trigger] t.links[k]
                        == s.links[k] by {
                        assert(r.links[k] == s.links[k]);
                    }
                },
            }
        }
    }
}

proof fn cancel_order_changes_little(s: Ledger, id: Seq<char>, now: i64)
    requires
        s.sound(),
    ensures
        changes_little(s, crate::steps::cancel_order_step(s, id, now).ledger, false),
{
    if s.order_update(id, OrderStatus::Cancelled) is Ok {
        let i = s.order_position(id).unwrap();
        assert(s.holds_order(i, id));
        closing_keeps_sound(s, i, OrderStatus::Cancelled, now);
    }
}

proof fn reset_order_changes_little(s: Ledger, id: Seq<char>, now: i64)
    requires
        s.sound(),
    ensures
        changes_little(s, crate::steps::reset_order_step(s, id, now).ledger, true),
{
    if s.reopening(id) is Ok {
        let i = s.order_position(id).unwrap();
        assert(s.holds_order(i, id));
        resetting_keeps_sound(s, i, now);
    }
}

proof fn fulfil_order_changes_little(s: Ledger, id: Seq<char>)
    requires
        s.sound(),
    ensures
        changes_little(s, crate::steps::fulfil_order_step(s, id).ledger, false),
{
    if s.fulfilment(id) is Ok {
        let i = s.order_position(id).unwrap();
        assert(s.holds_order(i, id));
    }
}

proof fn credit_note_changes_little(s: Ledger, n: crate::records::CreditNoteView, now: i64)
    requires
        s.sound(),
    ensures
        changes_little(s, crate::steps::credit_note_step(s, n, now).ledger, false),
{
    let t = crate::steps::credit_note_step(s, n, now).ledger;
    let txid = credit_note_txid(n, now);
    let address = dummy_address(n.customer_id);
    if s.payment_position(txid) is None && s.payments.len() < i64::MAX {
        match s.resolved_account(Some(n.customer_id), Some(address)) {
            Err(_) => {},
            Ok(a) => {
                let r = s.after_resolving(Some(n.customer_id), Some(address), now);
                resolving_keeps_sound(s, Some(n.customer_id), Some(address), now);
                payment_position_depends_on_ids(s, r, txid);
                crediting_keeps_sound(r, credit_row(n, a, now), now);
                let credited = with_credit(r, credit_row(n, a, now), now);
                settle_effect(credited, a, now);
                assert forall|b: i64| s.has_account(b) implies {
                    &&& t.has_account(b)
                    &&& (#[trigger] t.account(b)).id == s.account(b).id
                    &&& t.account(b).created_at == s.account(b).created_at
                    &&& t.account(b).credits >= s.account(b).credits
                    &&& t.account(b).debits >= s.account(b).debits
                } by {
                    assert(r.account(b) == s.account(b));
                    assert(credited.has_account(b));
                    assert(credited.account(b).debits == r.account(b).debits);
                    assert(credited.account(b).credits >= r.account(b).credits);
                }
                assert forall|k: int| 0 <= k < s.payments.len() implies payment_may_become(
                    s.payments[k],
                    #[trigger] t.payments[k],
                ) by {
                    assert(credited.payments[k] == r.payments[k]);
                }
                assert forall|k: int| 0 <= k < s.links.len() implies #[trigger] t.links[k]
                    == s.links[k] by {
                    assert(r.links[k] == s.links[k]);
                }
            },
        }
    }
}

proof fn expiry_changes_little(s: Ledger, now: i64, a: u64, b: u64)
    requires
        s.sound(),
    ensures
        changes_little(s, crate::steps::expire_step(s, now, a, b).ledger, false),
{
    expire_rows_properties(s, s.orders.len(), now, a, b);
}

/// Whatever the command, what is there changes little.
pub proof fn commands_change_little(s: Ledger, e: EntryView)
    requires
        s.sound(),
    ensures
        changes_little(s, apply(s, e).ledger, e.command is ResetOrder),
{
    match e.command {
        CommandView::NewOrder(o) => new_order_changes_little(s, o, e.at),
        CommandView::NewPayment(p) => new_payment_changes_little(s, p, e.at),
        CommandView::ConfirmPayment(t) => confirm_payment_changes_little(s, t, e.at),
        CommandView::CancelPayment(t) => cancel_payment_changes_little(s, t),
        CommandView::ClaimOrder(id, c) => claim_order_changes_little(s, id, c, e.at),
        CommandView::CancelOrder(id) => cancel_order_changes_little(s, id, e.at),
        CommandView::ResetOrder(id) => reset_order_changes_little(s, id, e.at),
        CommandView::FulfilOrder(id) => fulfil_order_changes_little(s, id),
        CommandView::IssueCredit(n) => credit_note_changes_little(s, n, e.at),
        CommandView::Expire(a, b) => expiry_changes_little(s, e.at, a, b),
    }
}

/// Accounts are never removed, and an account never loses credits; it
/// loses debits only where an administrator resets one of its orders.
pub proof fn sums_never_fall(s: Ledger, e: EntryView, id: i64)
    requires
        s.sound(),
        s.has_account(id),
    ensures
        apply(s, e).ledger.has_account(id),
        apply(s, e).ledger.account(id).id == id,
        apply(s, e).ledger.account(id).credits >= s.account(id).credits,
        !(e.command is ResetOrder) ==> apply(s, e).ledger.account(id).debits >= s.account(id).debits,
{
    commands_change_little(s, e);
    assert(apply(s, e).ledger.account(id).id == s.account(id).id);
}

/// Links are never rewritten: every link stays where and what it was.
pub proof fn links_are_only_added(s: Ledger, e: EntryView, i: int)
    requires
        s.sound(),
        0 <= i < s.links.len(),
    ensures
        i < apply(s, e).ledger.links.len(),
        apply(s, e).ledger.links[i] == s.links[i],
{
    commands_change_little(s, e);
}

/// The status of an order moves along the edges of the lifecycle, and the
/// status of a payment from received to confirmed or cancelled; nothing
/// else about them changes but an unclaimed order's account.
pub proof fn rows_follow_their_lifecycle(s: Ledger, e: EntryView)
    requires
        s.sound(),
    ensures
        forall|i: int|
            0 <= i < s.orders.len() ==> i < apply(s, e).ledger.orders.len() && order_may_become(
                s.orders[i],
                #[trigger] apply(s, e).ledger.orders[i],
                e.command is ResetOrder,
            ),
        forall|i: int|
            0 <= i < s.payments.len() ==> i < apply(s, e).ledger.payments.len()
                && payment_may_become(s.payments[i], #[trigger] apply(s, e).ledger.payments[i]),
{
    commands_change_little(s, e);
}

/// Confirming a payment moves its amount from what its account waits for
/// to the account's credits.
pub proof fn confirmation_moves_pending_credit(s: Ledger, txid: Seq<char>, now: i64)
    requires
        s.sound(),
        s.payment_update(txid, TransferStatus::Confirmed) is Ok,
        s.payment_update(txid, TransferStatus::Confirmed).unwrap() is Some,
    ensures
        ({
            let i = s.payment_position(txid).unwrap();
            let a = s.payments[i].account_id;
            let t = confirm_payment_step(s, txid, now).ledger;
            &&& t.has_account(a)
            &&& crate::totals::received_total(t.payments, a) + s.payments[i].amount
                == crate::totals::received_total(s.payments, a)
            &&& t.account(a).credits == s.account(a).credits + s.payments[i].amount
        }),
{
    let i = s.payment_position(txid).unwrap();
    assert(s.holds_payment(i, txid));
    let a = s.payments[i].account_id;
    confirming_keeps_sound(s, i, now);
    let credited = confirmed(s, i, now);
    settle_effect(credited, a, now);
    crate::totals::payment_totals_after_update(
        s.payments,
        i,
        PaymentView { status: TransferStatus::Confirmed, ..s.payments[i] },
        a,
    );
}

/// Cancelling a payment takes its amount off what its account waits for,
/// and changes no account.
pub proof fn cancellation_removes_pending_credit(s: Ledger, txid: Seq<char>)
    requires
        s.sound(),
        s.payment_update(txid, TransferStatus::Cancelled) is Ok,
        s.payment_update(txid, TransferStatus::Cancelled).unwrap() is Some,
    ensures
        ({
            let i = s.payment_position(txid).unwrap();
            let a = s.payments[i].account_id;
            let t = crate::steps::cancel_payment_step(s, txid).ledger;
            &&& crate::totals::received_total(t.payments, a) + s.payments[i].amount
                == crate::totals::received_total(s.payments, a)
            &&& t.accounts == s.accounts
        }),
{
    let i = s.payment_position(txid).unwrap();
    assert(s.holds_payment(i, txid));
    let a = s.payments[i].account_id;
    cancelling_payment_keeps_sound(s, i);
    crate::totals::payment_totals_after_update(
        s.payments,
        i,
        PaymentView { status: TransferStatus::Cancelled, ..s.payments[i] },
        a,
    );
}

} // verus!
