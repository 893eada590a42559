//! The matcher: which claimed orders of an account its credit pays, and in
//! what order.

use vstd::prelude::*;
use crate::ledger::Ledger;
use crate::ledger::order_position_is_unique;
use crate::records::Account;
use crate::records::Order;
use crate::records::OrderView;
use crate::store::Store;
use crate::store::order_views;
use crate::status::OrderStatus;
use crate::text::comes_before;
use crate::text::text_before;
use crate::text::text_before_is_strict_total;
use crate::totals::sum;
use crate::totals::sum_of_update;
use crate::totals::sum_covers_each;
use crate::totals::sum_is_bounded;
use crate::totals::pendings;
use crate::totals::order_totals_after_update;

verus! {

/// The order waits for the credit of `account`.
pub open spec fn is_claimed_by(o: OrderView, account: i64) -> bool {
    o.status is Claimed && o.account_id == account
}

/// The order in which the matcher takes orders: the older first, and of two
/// of the same age the one whose id comes first.
pub open spec fn precedes(x: OrderView, y: OrderView) -> bool {
    x.created_at < y.created_at || (x.created_at == y.created_at && text_before(
        x.order_id,
        y.order_id,
    ))
}

/// Whether `a` is taken before `b`.
pub fn comes_first(a: &Order, b: &Order) -> (r: bool)
    ensures
        r == precedes(a@, b@),
{
    a.created_at < b.created_at || (a.created_at == b.created_at && comes_before(
        a.order_id.as_str(),
        b.order_id.as_str(),
    ))
}

/// `precedes` orders any rows with different ids strictly and totally.
pub proof fn precedes_is_strict_total(x: OrderView, y: OrderView, z: OrderView)
    ensures
        !precedes(x, x),
        !(precedes(x, y) && precedes(y, x)),
        precedes(x, y) && precedes(y, z) ==> precedes(x, z),
        x.order_id != y.order_id ==> precedes(x, y) || precedes(y, x),
{
    text_before_is_strict_total(x.order_id, y.order_id, z.order_id);
    text_before_is_strict_total(x.order_id, x.order_id, x.order_id);
}

/// The row `i` holds the claimed order of `account` that precedes all its
/// other claimed orders.
pub open spec fn leads(orders: Seq<OrderView>, account: i64, i: int) -> bool {
    &&& 0 <= i < orders.len()
    &&& is_claimed_by(orders[i], account)
    &&& forall|j: int|
        0 <= j < orders.len() && j != i && is_claimed_by(#[trigger] orders[j], account)
            ==> precedes(orders[i], orders[j])
}

/// The row of the claimed order that the matcher takes next.
pub open spec fn first_claimed(orders: Seq<OrderView>, account: i64) -> Option<int> {
    if exists|i: int| leads(orders, account, i) {
        Some(choose|i: int| leads(orders, account, i))
    } else {
        None
    }
}

/// Only one row leads.
pub proof fn leader_is_unique(orders: Seq<OrderView>, account: i64, i: int)
    requires
        leads(orders, account, i),
    ensures
        first_claimed(orders, account) == Some(i),
{
    let j = choose|j: int| leads(orders, account, j);
    if i != j {
        precedes_is_strict_total(orders[i], orders[j], orders[i]);
    }
}

/// Among the first `n` rows, the row that leads them, if one of them is
/// claimed by the account.
pub open spec fn leads_prefix(orders: Seq<OrderView>, account: i64, n: int, i: int) -> bool {
    &&& 0 <= i < n
    &&& is_claimed_by(orders[i], account)
    &&& forall|j: int|
        0 <= j < n && j != i && is_claimed_by(#[trigger] orders[j], account) ==> precedes(
            orders[i],
            orders[j],
        )
}

/// Where an account has a claimed order, one of them leads.
pub proof fn leader_exists(s: Ledger, account: i64, n: int) -> (r: Option<int>)
    requires
        s.well_formed(),
        0 <= n <= s.orders.len(),
    ensures
        match r {
            Some(i) => leads_prefix(s.orders, account, n, i),
            None => forall|j: int| 0 <= j < n ==> !is_claimed_by(#[trigger] s.orders[j], account),
        },
    decreases n,
{
    if n == 0 {
        None
    } else {
        let before = leader_exists(s, account, n - 1);
        let last = s.orders[n - 1];
        if !is_claimed_by(last, account) {
            before
        } else {
            match before {
                None => Some(n - 1),
                Some(b) => {
                    assert(s.orders[b].order_id != last.order_id);
                    precedes_is_strict_total(last, s.orders[b], last);
                    if precedes(last, s.orders[b]) {
                        assert forall|j: int|
                            0 <= j < n && j != n - 1 && is_claimed_by(
                                #[trigger] s.orders[j],
                                account,
                            ) implies precedes(last, s.orders[j]) by {
                            if j != b {
                                precedes_is_strict_total(last, s.orders[b], s.orders[j]);
                            }
                        }
                        Some(n - 1)
                    } else {
                        Some(b)
                    }
                },
            }
        }
    }
}

/// No claimed order of the account: then none is taken next; and the other
/// way round.
pub proof fn no_leader_means_none_claimed(s: Ledger, account: i64)
    requires
        s.well_formed(),
    ensures
        first_claimed(s.orders, account) is None <==> (forall|j: int|
            0 <= j < s.orders.len() ==> !is_claimed_by(#[trigger] s.orders[j], account)),
{
    let r = leader_exists(s, account, s.orders.len() as int);
    match r {
        Some(i) => {
            assert(leads(s.orders, account, i));
            leader_is_unique(s.orders, account, i);
        },
        None => {
            if first_claimed(s.orders, account) is Some {
                let i = first_claimed(s.orders, account).unwrap();
                assert(leads(s.orders, account, i));
                assert(is_claimed_by(s.orders[i], account));
            }
        },
    }
}

/// The state after the order in row `i` has been paid from its account.
pub open spec fn pay(s: Ledger, i: int, now: i64) -> Ledger {
    let o = s.orders[i];
    s.after_order_update(o.order_id, OrderStatus::Paid, now).after_adjustment(
        o.account_id,
        0,
        o.amount as int,
        -(o.amount as int),
        now,
    )
}

/// The paid row.
pub open spec fn paid_row(o: OrderView, now: i64) -> OrderView {
    OrderView { status: OrderStatus::Paid, updated_at: now, ..o }
}

/// The account that has paid `amount`.
pub open spec fn charged(a: Account, amount: u64, now: i64) -> Account {
    Account {
        debits: (a.debits + amount) as u128,
        pending: (a.pending - amount) as u128,
        updated_at: now,
        ..a
    }
}

/// Paying a claimed order that the account can afford marks the order paid
/// and moves its amount from pending to debits; the state stays sound.
pub proof fn pay_keeps_sound(s: Ledger, i: int, now: i64)
    requires
        s.sound(),
        0 <= i < s.orders.len(),
        s.orders[i].status is Claimed,
        s.orders[i].amount <= s.account(s.orders[i].account_id).spendable(),
    ensures
        pay(s, i, now) == s.put_order(i, paid_row(s.orders[i], now)).put_account(
            s.orders[i].account_id,
            charged(s.account(s.orders[i].account_id), s.orders[i].amount, now),
        ),
        s.after_order_update(s.orders[i].order_id, OrderStatus::Paid, now) == s.put_order(
            i,
            paid_row(s.orders[i], now),
        ),
        s.put_order(i, paid_row(s.orders[i], now)).adjustment(
            s.orders[i].account_id,
            0,
            s.orders[i].amount as int,
            -(s.orders[i].amount as int),
            now,
        ) is Ok,
        pay(s, i, now).sound(),
        pay(s, i, now).account(s.orders[i].account_id).spendable() == s.account(
            s.orders[i].account_id,
        ).spendable() - s.orders[i].amount,
{
    let o = s.orders[i];
    let a = o.account_id;
    let acc = s.account(a);
    order_position_is_unique(s, i, o.order_id);
    let s1 = s.put_order(i, paid_row(o, now));
    assert(s.after_order_update(o.order_id, OrderStatus::Paid, now) == s1);
    assert(s.has_account(a));
    assert(s.account_balanced(a));
    sum_covers_each(pendings(s.orders, a), i);
    assert(acc.pending >= o.amount);
    let s2 = s1.put_account(a, charged(acc, o.amount, now));
    assert(s1.adjustment(a, 0, o.amount as int, -(o.amount as int), now) == Ok::<
        Account,
        crate::outcome::OrderFlowError,
    >(charged(acc, o.amount, now)));
    assert(pay(s, i, now) == s2);
    assert(s2.well_formed());
    assert(s2.consistent()) by {
        assert forall|k: int| 0 <= k < s2.payments.len() implies s2.resolve(
            crate::status::IdentityKind::WalletAddress,
            (#[trigger] s2.payments[k]).sender,
        ) == Some(s2.payments[k].account_id) by {
            assert(s2.payments[k] == s.payments[k]);
            assert(s2.links == s.links);
            assert(s.resolve(crate::status::IdentityKind::WalletAddress, s.payments[k].sender)
                == Some(s.payments[k].account_id));
            assert(forall|n: int, kind: crate::status::IdentityKind, key: Seq<char>|
                s2.holds_link(n, kind, key) == s.holds_link(n, kind, key));
        }
    }
    assert forall|b: i64| s2.has_account(b) implies #[trigger] s2.account_balanced(b) by {
        assert(s.has_account(b));
        assert(s.account_balanced(b));
        order_totals_after_update(s.orders, i, paid_row(o, now), b);
    }
}

/// How many orders of the account are claimed.
pub open spec fn claimed_flags(orders: Seq<OrderView>, account: i64) -> Seq<nat> {
    Seq::new(
        orders.len(),
        |i: int|
            if is_claimed_by(orders[i], account) {
                1nat
            } else {
                0nat
            },
    )
}

pub open spec fn claimed_count(orders: Seq<OrderView>, account: i64) -> nat {
    sum(claimed_flags(orders, account))
}

/// What the matcher does to the state in at most `fuel` payments: it pays
/// the leading claimed order as long as the account can afford it.
pub open spec fn settle_steps(s: Ledger, account: i64, now: i64, fuel: nat) -> Ledger
    decreases fuel,
{
    if fuel == 0 {
        s
    } else {
        match first_claimed(s.orders, account) {
            None => s,
            Some(i) => if s.orders[i].amount <= s.account(account).spendable() {
                settle_steps(pay(s, i, now), account, now, (fuel - 1) as nat)
            } else {
                s
            },
        }
    }
}

/// The rows that the matcher pays in at most `fuel` payments, in the order
/// of paying, as they stand afterwards.
pub open spec fn settled_rows(s: Ledger, account: i64, now: i64, fuel: nat) -> Seq<OrderView>
    decreases fuel,
{
    if fuel == 0 {
        Seq::empty()
    } else {
        match first_claimed(s.orders, account) {
            None => Seq::empty(),
            Some(i) => if s.orders[i].amount <= s.account(account).spendable() {
                seq![paid_row(s.orders[i], now)] + settled_rows(
                    pay(s, i, now),
                    account,
                    now,
                    (fuel - 1) as nat,
                )
            } else {
                Seq::empty()
            },
        }
    }
}

/// The state after a pass of the matcher over an account.
pub open spec fn settle(s: Ledger, account: i64, now: i64) -> Ledger {
    settle_steps(s, account, now, s.orders.len())
}

/// The rows that a pass of the matcher pays.
pub open spec fn settled(s: Ledger, account: i64, now: i64) -> Seq<OrderView> {
    settled_rows(s, account, now, s.orders.len())
}

/// The matcher has nothing left to do for the account: it has no claimed
/// order, or the one that leads costs more than it can spend.
pub open spec fn at_rest(s: Ledger, account: i64) -> bool {
    match first_claimed(s.orders, account) {
        None => true,
        Some(i) => s.orders[i].amount > s.account(account).spendable(),
    }
}

/// The amounts of some rows, added up.
pub open spec fn amount_of(rows: Seq<OrderView>) -> nat
    decreases rows.len(),
{
    if rows.len() == 0 {
        0
    } else {
        rows[0].amount as nat + amount_of(rows.drop_first())
    }
}

/// A payment takes one claimed order away.
pub proof fn pay_lowers_claimed_count(s: Ledger, i: int, account: i64, now: i64)
    requires
        s.sound(),
        0 <= i < s.orders.len(),
        is_claimed_by(s.orders[i], account),
        s.orders[i].amount <= s.account(account).spendable(),
    ensures
        claimed_count(pay(s, i, now).orders, account) + 1 == claimed_count(s.orders, account),
        pay(s, i, now).orders.len() == s.orders.len(),
{
    pay_keeps_sound(s, i, now);
    assert(claimed_flags(pay(s, i, now).orders, account) =~= claimed_flags(
        s.orders,
        account,
    ).update(i, 0nat));
    sum_of_update(claimed_flags(s.orders, account), i, 0nat);
}

/// What a pass of the matcher ensures, stated for any number of payments
/// that covers the claimed orders: the state stays sound, only orders and
/// this account change, the account's spendable credit falls by what was
/// paid, and nothing payable is left.
pub proof fn settle_steps_properties(s: Ledger, account: i64, now: i64, fuel: nat)
    requires
        s.sound(),
        s.has_account(account),
        claimed_count(s.orders, account) <= fuel,
    ensures
        settle_steps(s, account, now, fuel).sound(),
        settle_steps(s, account, now, fuel).links == s.links,
        settle_steps(s, account, now, fuel).payments == s.payments,
        settle_steps(s, account, now, fuel).accounts.len() == s.accounts.len(),
        settle_steps(s, account, now, fuel).orders.len() == s.orders.len(),
        settle_steps(s, account, now, fuel).account(account).spendable() == s.account(
            account,
        ).spendable() - amount_of(settled_rows(s, account, now, fuel)),
        at_rest(settle_steps(s, account, now, fuel), account),
    decreases fuel,
{
    if first_claimed(s.orders, account) is Some {
        let i = first_claimed(s.orders, account).unwrap();
        assert(leads(s.orders, account, i));
        sum_covers_each(claimed_flags(s.orders, account), i);
        if s.orders[i].amount <= s.account(account).spendable() {
            pay_keeps_sound(s, i, now);
            pay_lowers_claimed_count(s, i, account, now);
            settle_steps_properties(pay(s, i, now), account, now, (fuel - 1) as nat);
            let rest = settled_rows(pay(s, i, now), account, now, (fuel - 1) as nat);
            let all = seq![paid_row(s.orders[i], now)] + rest;
            assert(all.drop_first() =~= rest);
        }
    }
}

/// A pass of the matcher keeps the state sound, touches only orders and the
/// one account, lowers its spendable credit by exactly what it paid, and
/// leaves nothing payable behind.
pub proof fn settle_properties(s: Ledger, account: i64, now: i64)
    requires
        s.sound(),
        s.has_account(account),
    ensures
        settle(s, account, now).sound(),
        settle(s, account, now).links == s.links,
        settle(s, account, now).payments == s.payments,
        settle(s, account, now).accounts.len() == s.accounts.len(),
        settle(s, account, now).orders.len() == s.orders.len(),
        settle(s, account, now).account(account).spendable() == s.account(account).spendable()
            - amount_of(settled(s, account, now)),
        settle(s, account, now).account(account).spendable() >= 0,
        at_rest(settle(s, account, now), account),
{
    sum_is_bounded(claimed_flags(s.orders, account), 1);
    settle_steps_properties(s, account, now, s.orders.len());
    assert(settle(s, account, now).account_balanced(account));
}

/// Once nothing is payable, more passes change nothing.
pub proof fn settle_steps_at_rest(s: Ledger, account: i64, now: i64, fuel: nat)
    requires
        at_rest(s, account),
    ensures
        settle_steps(s, account, now, fuel) == s,
        settled_rows(s, account, now, fuel) == Seq::<OrderView>::empty(),
{
}

/// The matcher changes neither the ids of the rows nor who owns them nor
/// what they cost.
pub proof fn settle_steps_keep_ids(s: Ledger, account: i64, now: i64, fuel: nat)
    requires
        s.sound(),
        s.has_account(account),
    ensures
        settle_steps(s, account, now, fuel).orders.len() == s.orders.len(),
        forall|i: int|
            0 <= i < s.orders.len() ==> {
                &&& (#[trigger] settle_steps(s, account, now, fuel).orders[i]).order_id
                    == s.orders[i].order_id
                &&& settle_steps(s, account, now, fuel).orders[i].account_id
                    == s.orders[i].account_id
                &&& settle_steps(s, account, now, fuel).orders[i].amount == s.orders[i].amount
            },
    decreases fuel,
{
    if fuel > 0 && first_claimed(s.orders, account) is Some {
        let i = first_claimed(s.orders, account).unwrap();
        assert(leads(s.orders, account, i));
        if s.orders[i].amount <= s.account(account).spendable() {
            pay_keeps_sound(s, i, now);
            settle_steps_keep_ids(pay(s, i, now), account, now, (fuel - 1) as nat);
        }
    }
}

/// Every row that the matcher pays is a row of the table it started from.
pub proof fn settled_rows_are_known(s: Ledger, account: i64, now: i64, fuel: nat)
    requires
        s.sound(),
        s.has_account(account),
    ensures
        forall|k: int|
            0 <= k < settled_rows(s, account, now, fuel).len() ==> s.order_position(
                (#[trigger] settled_rows(s, account, now, fuel)[k]).order_id,
            ) is Some,
    decreases fuel,
{
    if fuel > 0 && first_claimed(s.orders, account) is Some {
        let i = first_claimed(s.orders, account).unwrap();
        assert(leads(s.orders, account, i));
        if s.orders[i].amount <= s.account(account).spendable() {
            pay_keeps_sound(s, i, now);
            let t = pay(s, i, now);
            settled_rows_are_known(t, account, now, (fuel - 1) as nat);
            let rest = settled_rows(t, account, now, (fuel - 1) as nat);
            let all = settled_rows(s, account, now, fuel);
            assert(all =~= seq![paid_row(s.orders[i], now)] + rest);
            assert forall|k: int| 0 <= k < all.len() implies s.order_position(
                (#[trigger] all[k]).order_id,
            ) is Some by {
                if k == 0 {
                    assert(s.holds_order(i, s.orders[i].order_id));
                } else {
                    assert(all[k] == rest[k - 1]);
                    let id = rest[k - 1].order_id;
                    let j = t.order_position(id).unwrap();
                    assert(t.holds_order(j, id));
                    assert(s.holds_order(j, id));
                }
            }
        }
    }
}

/// The amounts of the claimed orders of the account, row by row.
pub open spec fn claimed_amounts(orders: Seq<OrderView>, account: i64) -> Seq<nat> {
    Seq::new(
        orders.len(),
        |i: int|
            if is_claimed_by(orders[i], account) {
                orders[i].amount as nat
            } else {
                0nat
            },
    )
}

/// What the claimed orders of the account cost together.
pub open spec fn claimed_total(orders: Seq<OrderView>, account: i64) -> nat {
    sum(claimed_amounts(orders, account))
}

/// What a pass of the matcher does to each row, whatever the credit: a row
/// stays as it is or, if it was claimed by the account, is paid. What the
/// account can spend beyond the cost of its claimed orders, or lacks, stays
/// the same.
pub proof fn settle_steps_effect(s: Ledger, account: i64, now: i64, fuel: nat)
    requires
        s.sound(),
        s.has_account(account),
    ensures
        settle_steps(s, account, now, fuel).sound(),
        settle_steps(s, account, now, fuel).orders.len() == s.orders.len(),
        settle_steps(s, account, now, fuel).payments == s.payments,
        settle_steps(s, account, now, fuel).links == s.links,
        settle_steps(s, account, now, fuel).accounts.len() == s.accounts.len(),
        forall|i: int|
            0 <= i < s.orders.len() ==> (#[trigger] settle_steps(s, account, now, fuel).orders[i])
                == s.orders[i] || (is_claimed_by(s.orders[i], account) && settle_steps(
                s,
                account,
                now,
                fuel,
            ).orders[i] == paid_row(s.orders[i], now)),
        settle_steps(s, account, now, fuel).account(account).spendable() - claimed_total(
            settle_steps(s, account, now, fuel).orders,
            account,
        ) == s.account(account).spendable() - claimed_total(s.orders, account),
        forall|b: i64|
            s.has_account(b) && b != account ==> #[trigger] settle_steps(
                s,
                account,
                now,
                fuel,
            ).account(b) == s.account(b),
        settle_steps(s, account, now, fuel).account(account).credits == s.account(account).credits,
        settle_steps(s, account, now, fuel).account(account).debits >= s.account(account).debits,
        settle_steps(s, account, now, fuel).account(account).created_at == s.account(
            account,
        ).created_at,
    decreases fuel,
{
    if fuel > 0 && first_claimed(s.orders, account) is Some {
        let i = first_claimed(s.orders, account).unwrap();
        assert(leads(s.orders, account, i));
        if s.orders[i].amount <= s.account(account).spendable() {
            pay_keeps_sound(s, i, now);
            let t = pay(s, i, now);
            assert(claimed_amounts(t.orders, account) =~= claimed_amounts(s.orders, account).update(
                i,
                0nat,
            ));
            sum_of_update(claimed_amounts(s.orders, account), i, 0nat);
            settle_steps_effect(t, account, now, (fuel - 1) as nat);
            assert forall|b: i64| s.has_account(b) && b != account implies #[trigger] settle_steps(
                s,
                account,
                now,
                fuel,
            ).account(b) == s.account(b) by {
                assert(t.has_account(b));
                assert(t.account(b) == s.account(b));
            }
        }
    }
}

/// With credit for all its claimed orders, a pass of the matcher pays every
/// one of them and leaves every other row as it was.
pub proof fn settle_steps_with_enough(s: Ledger, account: i64, now: i64, fuel: nat)
    requires
        s.sound(),
        s.has_account(account),
        claimed_count(s.orders, account) <= fuel,
        s.account(account).spendable() >= claimed_total(s.orders, account),
    ensures
        settle_steps(s, account, now, fuel).orders.len() == s.orders.len(),
        forall|i: int|
            0 <= i < s.orders.len() ==> (#[trigger] settle_steps(s, account, now, fuel).orders[i])
                == (if is_claimed_by(s.orders[i], account) {
                paid_row(s.orders[i], now)
            } else {
                s.orders[i]
            }),
        settle_steps(s, account, now, fuel).account(account).spendable() == s.account(
            account,
        ).spendable() - claimed_total(s.orders, account),
    decreases fuel,
{
    no_leader_means_none_claimed(s, account);
    if first_claimed(s.orders, account) is Some {
        let i = first_claimed(s.orders, account).unwrap();
        assert(leads(s.orders, account, i));
        sum_covers_each(claimed_flags(s.orders, account), i);
        sum_covers_each(claimed_amounts(s.orders, account), i);
        pay_keeps_sound(s, i, now);
        pay_lowers_claimed_count(s, i, account, now);
        let t = pay(s, i, now);
        assert(claimed_amounts(t.orders, account) =~= claimed_amounts(s.orders, account).update(
            i,
            0nat,
        ));
        sum_of_update(claimed_amounts(s.orders, account), i, 0nat);
        settle_steps_with_enough(t, account, now, (fuel - 1) as nat);
    } else {
        assert forall|i: int| 0 <= i < s.orders.len() implies claimed_amounts(s.orders, account)[i]
            == 0 by {
            assert(!is_claimed_by(s.orders[i], account));
        }
        crate::totals::sum_of_zeros(claimed_amounts(s.orders, account));
    }
}

/// What a pass of the matcher does to each row, whatever the credit.
pub proof fn settle_effect(s: Ledger, account: i64, now: i64)
    requires
        s.sound(),
        s.has_account(account),
    ensures
        settle(s, account, now).sound(),
        settle(s, account, now).orders.len() == s.orders.len(),
        settle(s, account, now).payments == s.payments,
        settle(s, account, now).links == s.links,
        settle(s, account, now).accounts.len() == s.accounts.len(),
        forall|i: int|
            0 <= i < s.orders.len() ==> (#[trigger] settle(s, account, now).orders[i])
                == s.orders[i] || (is_claimed_by(s.orders[i], account) && settle(
                s,
                account,
                now,
            ).orders[i] == paid_row(s.orders[i], now)),
        settle(s, account, now).account(account).spendable() - claimed_total(
            settle(s, account, now).orders,
            account,
        ) == s.account(account).spendable() - claimed_total(s.orders, account),
        forall|b: i64|
            s.has_account(b) && b != account ==> #[trigger] settle(s, account, now).account(b)
                == s.account(b),
        settle(s, account, now).account(account).credits == s.account(account).credits,
        settle(s, account, now).account(account).debits >= s.account(account).debits,
        settle(s, account, now).account(account).created_at == s.account(account).created_at,
{
    settle_steps_effect(s, account, now, s.orders.len());
}

/// With credit for all its claimed orders, a pass of the matcher pays every
/// one of them and leaves every other row as it was.
pub proof fn settle_with_enough(s: Ledger, account: i64, now: i64)
    requires
        s.sound(),
        s.has_account(account),
        s.account(account).spendable() >= claimed_total(s.orders, account),
    ensures
        settle(s, account, now).orders.len() == s.orders.len(),
        forall|i: int|
            0 <= i < s.orders.len() ==> (#[trigger] settle(s, account, now).orders[i]) == (
            if is_claimed_by(s.orders[i], account) {
                paid_row(s.orders[i], now)
            } else {
                s.orders[i]
            }),
        settle(s, account, now).account(account).spendable() == s.account(account).spendable()
            - claimed_total(s.orders, account),
{
    sum_is_bounded(claimed_flags(s.orders, account), 1);
    settle_steps_with_enough(s, account, now, s.orders.len());
}

/// A new row adds its amount to the cost of the claimed orders of the
/// account if it is claimed by it.
pub proof fn claimed_total_after_push(orders: Seq<OrderView>, o: OrderView, account: i64)
    ensures
        claimed_total(orders.push(o), account) == claimed_total(orders, account) + (
        if is_claimed_by(o, account) {
            o.amount as nat
        } else {
            0nat
        }),
{
    let v = if is_claimed_by(o, account) {
        o.amount as nat
    } else {
        0nat
    };
    assert(claimed_amounts(orders.push(o), account) =~= claimed_amounts(orders, account).push(v));
    crate::totals::sum_of_push(claimed_amounts(orders, account), v);
}

/// The matcher pays from the front: an order that it paid precedes every
/// order of the account that it left claimed.
pub proof fn settle_steps_pay_from_the_front(s: Ledger, account: i64, now: i64, fuel: nat)
    requires
        s.sound(),
        s.has_account(account),
    ensures
        forall|i: int, j: int|
            0 <= i < s.orders.len() && 0 <= j < s.orders.len() && is_claimed_by(
                s.orders[i],
                account,
            ) && (#[trigger] settle_steps(s, account, now, fuel).orders[i]).status is Paid
                && is_claimed_by(
                #[trigger] settle_steps(s, account, now, fuel).orders[j],
                account,
            ) ==> precedes(s.orders[i], s.orders[j]),
    decreases fuel,
{
    settle_steps_effect(s, account, now, fuel);
    if fuel > 0 && first_claimed(s.orders, account) is Some {
        let first = first_claimed(s.orders, account).unwrap();
        assert(leads(s.orders, account, first));
        if s.orders[first].amount <= s.account(account).spendable() {
            pay_keeps_sound(s, first, now);
            let t = pay(s, first, now);
            settle_steps_effect(t, account, now, (fuel - 1) as nat);
            settle_steps_pay_from_the_front(t, account, now, (fuel - 1) as nat);
            let end = settle_steps(s, account, now, fuel);
            assert forall|i: int, j: int|
                0 <= i < s.orders.len() && 0 <= j < s.orders.len() && is_claimed_by(
                    s.orders[i],
                    account,
                ) && (#[trigger] end.orders[i]).status is Paid && is_claimed_by(
                    #[trigger] end.orders[j],
                    account,
                ) implies precedes(s.orders[i], s.orders[j]) by {
                assert(end.orders[first] == t.orders[first]);
                assert(j != first);
                assert(t.orders[j] == s.orders[j]);
                if i != first {
                    assert(t.orders[i] == s.orders[i]);
                }
            }
        }
    }
}

/// A pass of the matcher pays from the front: an order that it paid
/// precedes every order of the account that it left claimed.
pub proof fn settle_pays_from_the_front(s: Ledger, account: i64, now: i64)
    requires
        s.sound(),
        s.has_account(account),
    ensures
        forall|i: int, j: int|
            0 <= i < s.orders.len() && 0 <= j < s.orders.len() && is_claimed_by(
                s.orders[i],
                account,
            ) && (#[trigger] settle(s, account, now).orders[i]).status is Paid && is_claimed_by(
                #[trigger] settle(s, account, now).orders[j],
                account,
            ) ==> precedes(s.orders[i], s.orders[j]),
{
    settle_steps_pay_from_the_front(s, account, now, s.orders.len());
}

/// One pass of the matcher over an account: it pays the claimed orders of
/// the account, the oldest first, until the next one costs more than the
/// account can spend. It gives the orders that it paid, in the order of
/// paying.
pub fn pay_orders(store: &mut Store, account: i64, now: i64) -> (paid: Vec<Order>)
    requires
        old(store)@.sound(),
        old(store)@.has_account(account),
    ensures
        final(store)@ == settle(old(store)@, account, now),
        order_views(paid@) == settled(old(store)@, account, now),
        final(store)@.sound(),
        at_rest(final(store)@, account),
        final(store)@.account(account).spendable() == old(store)@.account(account).spendable()
            - amount_of(order_views(paid@)),
{
    let n = store.order_count();
    let mut paid: Vec<Order> = Vec::new();
    let mut k: usize = 0;
    let mut resting = false;
    let ghost start = store@;
    proof {
        settle_properties(start, account, now);
        assert(order_views(paid@) =~= Seq::<OrderView>::empty());
        assert(order_views(paid@) + settled_rows(store@, account, now, n as nat) =~= settled_rows(
            store@,
            account,
            now,
            n as nat,
        ));
    }
    while k < n && !resting
        invariant
            store@.sound(),
            store@.has_account(account),
            store@.orders.len() == n,
            k <= n,
            resting ==> at_rest(store@, account),
            settle_steps(start, account, now, n as nat) == settle_steps(
                store@,
                account,
                now,
                (n - k) as nat,
            ),
            settled_rows(start, account, now, n as nat) == order_views(paid@) + settled_rows(
                store@,
                account,
                now,
                (n - k) as nat,
            ),
        decreases n - k + if resting { 0int } else { 1int },
    {
        match store.first_claimed(account) {
            None => {
                resting = true;
            },
            Some(row) => {
                let mut order = store.order_at(row);
                let balance = match store.account(account) {
                    Some(a) => a.balance(),
                    None => 0,
                };
                proof {
                    assert(store@.account_balanced(account));
                }
                if order.amount as u128 <= balance {
                    let ghost before = store@;
                    let ghost shown = order_views(paid@);
                    proof {
                        pay_keeps_sound(before, row as int, now);
                    }
                    let moved = store.set_order_status(
                        order.order_id.as_str(),
                        OrderStatus::Paid,
                        now,
                    );
                    let charged = store.adjust_account(
                        account,
                        0,
                        order.amount as i128,
                        -(order.amount as i128),
                        now,
                    );
                    assert(moved is Ok && charged is Ok);
                    order.status = OrderStatus::Paid;
                    order.updated_at = now;
                    paid.push(order);
                    proof {
                        assert(store@ == pay(before, row as int, now));
                        let rest = settled_rows(store@, account, now, (n - k - 1) as nat);
                        let head = seq![paid_row(before.orders[row as int], now)];
                        assert(order_views(paid@) =~= shown + head);
                        assert(order_views(paid@) + rest =~= shown + (head + rest));
                    }
                    k = k + 1;
                } else {
                    resting = true;
                }
            },
        }
    }
    proof {
        if resting {
            settle_steps_at_rest(store@, account, now, (n - k) as nat);
        }
        assert(order_views(paid@) + Seq::<OrderView>::empty() =~= order_views(paid@));
    }
    paid
}

} // verus!
