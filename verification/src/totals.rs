//! Sums over the rows of a table, and how they move when a row is added or
//! replaced.

use vstd::prelude::*;
use crate::records::OrderView;
use crate::records::PaymentView;

verus! {

/// The sum of a sequence of amounts.
pub open spec fn sum(values: Seq<nat>) -> nat
    decreases values.len(),
{
    if values.len() == 0 {
        0
    } else {
        sum(values.drop_last()) + values.last()
    }
}

pub proof fn sum_of_push(values: Seq<nat>, v: nat)
    ensures
        sum(values.push(v)) == sum(values) + v,
{
    assert(values.push(v).drop_last() =~= values);
}

pub proof fn sum_of_update(values: Seq<nat>, i: int, v: nat)
    requires
        0 <= i < values.len(),
    ensures
        sum(values.update(i, v)) == sum(values) - values[i] + v,
    decreases values.len(),
{
    if i == values.len() - 1 {
        assert(values.update(i, v).drop_last() =~= values.drop_last());
    } else {
        sum_of_update(values.drop_last(), i, v);
        assert(values.update(i, v).drop_last() =~= values.drop_last().update(i, v));
    }
}

pub proof fn sum_is_bounded(values: Seq<nat>, bound: nat)
    requires
        forall|i: int| 0 <= i < values.len() ==> values[i] <= bound,
    ensures
        sum(values) <= values.len() * bound,
    decreases values.len(),
{
    if values.len() > 0 {
        sum_is_bounded(values.drop_last(), bound);
        assert((values.len() - 1) * bound + bound == values.len() * bound) by (nonlinear_arith);
    }
}

/// An element is never more than the sum.
pub proof fn sum_covers_each(values: Seq<nat>, i: int)
    requires
        0 <= i < values.len(),
    ensures
        values[i] <= sum(values),
    decreases values.len(),
{
    if i < values.len() - 1 {
        sum_covers_each(values.drop_last(), i);
    }
}

/// Amounts that are all nothing add up to nothing.
pub proof fn sum_of_zeros(values: Seq<nat>)
    requires
        forall|i: int| 0 <= i < values.len() ==> values[i] == 0,
    ensures
        sum(values) == 0,
    decreases values.len(),
{
    if values.len() > 0 {
        sum_of_zeros(values.drop_last());
    }
}

/// What an order adds to the debits of `account`: its amount, if it is paid
/// and belongs to it.
pub open spec fn debit_of(o: OrderView, account: i64) -> nat {
    if o.account_id == account && o.status is Paid {
        o.amount as nat
    } else {
        0
    }
}

/// What an order adds to the pending value of `account`: its amount, if it
/// is unclaimed or claimed and belongs to it.
pub open spec fn pending_of(o: OrderView, account: i64) -> nat {
    if o.account_id == account && o.status.is_open() {
        o.amount as nat
    } else {
        0
    }
}

/// What a payment adds to the credits of `account`: its amount, if it is
/// confirmed and its sender belongs to it.
pub open spec fn credit_of(p: PaymentView, account: i64) -> nat {
    if p.account_id == account && p.status is Confirmed {
        p.amount as nat
    } else {
        0
    }
}

/// What a payment adds to the credit that `account` still waits for: its
/// amount, if it is received and not yet confirmed.
pub open spec fn unconfirmed_of(p: PaymentView, account: i64) -> nat {
    if p.account_id == account && p.status is Received {
        p.amount as nat
    } else {
        0
    }
}

pub open spec fn debits(orders: Seq<OrderView>, account: i64) -> Seq<nat> {
    Seq::new(orders.len(), |i: int| debit_of(orders[i], account))
}

pub open spec fn pendings(orders: Seq<OrderView>, account: i64) -> Seq<nat> {
    Seq::new(orders.len(), |i: int| pending_of(orders[i], account))
}

pub open spec fn credits(payments: Seq<PaymentView>, account: i64) -> Seq<nat> {
    Seq::new(payments.len(), |i: int| credit_of(payments[i], account))
}

pub open spec fn unconfirmed(payments: Seq<PaymentView>, account: i64) -> Seq<nat> {
    Seq::new(payments.len(), |i: int| unconfirmed_of(payments[i], account))
}

/// The amounts of the paid orders of `account`, added up.
pub open spec fn paid_total(orders: Seq<OrderView>, account: i64) -> nat {
    sum(debits(orders, account))
}

/// The amounts of the unclaimed and claimed orders of `account`, added up.
pub open spec fn open_total(orders: Seq<OrderView>, account: i64) -> nat {
    sum(pendings(orders, account))
}

/// The amounts of the confirmed payments of `account`, added up.
pub open spec fn confirmed_total(payments: Seq<PaymentView>, account: i64) -> nat {
    sum(credits(payments, account))
}

/// The amounts of the received, unconfirmed payments of `account`, added up.
pub open spec fn received_total(payments: Seq<PaymentView>, account: i64) -> nat {
    sum(unconfirmed(payments, account))
}

/// A new order moves the two order totals by what it adds.
pub proof fn order_totals_after_push(orders: Seq<OrderView>, o: OrderView, account: i64)
    ensures
        paid_total(orders.push(o), account) == paid_total(orders, account) + debit_of(o, account),
        open_total(orders.push(o), account) == open_total(orders, account) + pending_of(
            o,
            account,
        ),
{
    assert(debits(orders.push(o), account) =~= debits(orders, account).push(debit_of(o, account)));
    assert(pendings(orders.push(o), account) =~= pendings(orders, account).push(
        pending_of(o, account),
    ));
    sum_of_push(debits(orders, account), debit_of(o, account));
    sum_of_push(pendings(orders, account), pending_of(o, account));
}

/// A replaced order moves the two order totals by the difference of what the
/// old and the new row add.
pub proof fn order_totals_after_update(orders: Seq<OrderView>, i: int, o: OrderView, account: i64)
    requires
        0 <= i < orders.len(),
    ensures
        paid_total(orders.update(i, o), account) == paid_total(orders, account) - debit_of(
            orders[i],
            account,
        ) + debit_of(o, account),
        open_total(orders.update(i, o), account) == open_total(orders, account) - pending_of(
            orders[i],
            account,
        ) + pending_of(o, account),
{
    assert(debits(orders.update(i, o), account) =~= debits(orders, account).update(
        i,
        debit_of(o, account),
    ));
    assert(pendings(orders.update(i, o), account) =~= pendings(orders, account).update(
        i,
        pending_of(o, account),
    ));
    sum_of_update(debits(orders, account), i, debit_of(o, account));
    sum_of_update(pendings(orders, account), i, pending_of(o, account));
}

/// A new payment moves the two payment totals by what it adds.
pub proof fn payment_totals_after_push(payments: Seq<PaymentView>, p: PaymentView, account: i64)
    ensures
        confirmed_total(payments.push(p), account) == confirmed_total(payments, account)
            + credit_of(p, account),
        received_total(payments.push(p), account) == received_total(payments, account)
            + unconfirmed_of(p, account),
{
    assert(credits(payments.push(p), account) =~= credits(payments, account).push(
        credit_of(p, account),
    ));
    assert(unconfirmed(payments.push(p), account) =~= unconfirmed(payments, account).push(
        unconfirmed_of(p, account),
    ));
    sum_of_push(credits(payments, account), credit_of(p, account));
    sum_of_push(unconfirmed(payments, account), unconfirmed_of(p, account));
}

/// A replaced payment moves the two payment totals by the difference of what
/// the old and the new row add.
pub proof fn payment_totals_after_update(
    payments: Seq<PaymentView>,
    i: int,
    p: PaymentView,
    account: i64,
)
    requires
        0 <= i < payments.len(),
    ensures
        confirmed_total(payments.update(i, p), account) == confirmed_total(payments, account)
            - credit_of(payments[i], account) + credit_of(p, account),
        received_total(payments.update(i, p), account) == received_total(payments, account)
            - unconfirmed_of(payments[i], account) + unconfirmed_of(p, account),
{
    assert(credits(payments.update(i, p), account) =~= credits(payments, account).update(
        i,
        credit_of(p, account),
    ));
    assert(unconfirmed(payments.update(i, p), account) =~= unconfirmed(payments, account).update(
        i,
        unconfirmed_of(p, account),
    ));
    sum_of_update(credits(payments, account), i, credit_of(p, account));
    sum_of_update(unconfirmed(payments, account), i, unconfirmed_of(p, account));
}

/// No total of a table exceeds what its rows could hold at most.
pub proof fn totals_fit(orders: Seq<OrderView>, payments: Seq<PaymentView>, account: i64)
    ensures
        paid_total(orders, account) <= orders.len() * u64::MAX,
        open_total(orders, account) <= orders.len() * u64::MAX,
        confirmed_total(payments, account) <= payments.len() * u64::MAX,
        received_total(payments, account) <= payments.len() * u64::MAX,
{
    sum_is_bounded(debits(orders, account), u64::MAX as nat);
    sum_is_bounded(pendings(orders, account), u64::MAX as nat);
    sum_is_bounded(credits(payments, account), u64::MAX as nat);
    sum_is_bounded(unconfirmed(payments, account), u64::MAX as nat);
}

} // verus!
