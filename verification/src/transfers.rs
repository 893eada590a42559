//! Payments as a table: inserting them once, changing their status, and
//! listing them by sender, by order and by time.

use vstd::prelude::*;
use vstd::string::StringExecFns;
use crate::errors::PaymentGatewayError;
use crate::errors::PaymentGatewayErrorView;
use crate::flow::OrderFlow;
use crate::flow::make_credit_note_txid;
use crate::outcome::OrderFlowError;
use crate::ledger::Ledger;
use crate::records::CreditNote;
use crate::records::CreditNoteView;
use crate::records::NewPayment;
use crate::records::Payment;
use crate::records::PaymentView;
use crate::status::TransferStatus;
use crate::steps::credit_note_step;
use crate::steps::credit_note_txid;
use crate::steps::credit_note_keeps_sound;
use crate::steps::new_payment_step;
use crate::steps::new_payment_keeps_sound;
use crate::steps::payment_status_step;
use crate::store::payment_views;
use crate::text::same_text;

verus! {

/// The payments that a wallet has sent, in the order of the table.
pub open spec fn sent_by(payments: Seq<PaymentView>, address: Seq<char>) -> Seq<PaymentView>
    decreases payments.len(),
{
    if payments.len() == 0 {
        Seq::empty()
    } else if payments.last().sender == address {
        sent_by(payments.drop_last(), address).push(payments.last())
    } else {
        sent_by(payments.drop_last(), address)
    }
}

/// The payments that a wallet has sent and that wait to be confirmed, in
/// the order of the table.
pub open spec fn waiting_from(payments: Seq<PaymentView>, address: Seq<char>) -> Seq<PaymentView>
    decreases payments.len(),
{
    if payments.len() == 0 {
        Seq::empty()
    } else if payments.last().sender == address && payments.last().status is Received {
        waiting_from(payments.drop_last(), address).push(payments.last())
    } else {
        waiting_from(payments.drop_last(), address)
    }
}

/// The payments that name an order, in the order of the table.
pub open spec fn naming_order(payments: Seq<PaymentView>, order_id: Seq<char>) -> Seq<PaymentView>
    decreases payments.len(),
{
    if payments.len() == 0 {
        Seq::empty()
    } else if payments.last().order_id == Some(order_id) {
        naming_order(payments.drop_last(), order_id).push(payments.last())
    } else {
        naming_order(payments.drop_last(), order_id)
    }
}

/// Where a payment goes among payments that are in the order of their
/// time: behind the last that is not younger.
pub open spec fn place(sorted: Seq<PaymentView>, p: PaymentView) -> int
    decreases sorted.len(),
{
    if sorted.len() == 0 {
        0
    } else if sorted.last().created_at <= p.created_at {
        sorted.len() as int
    } else {
        place(sorted.drop_last(), p)
    }
}

/// The payments in the order of their time; those of one time stay in the
/// order in which they stood.
pub open spec fn by_time(payments: Seq<PaymentView>) -> Seq<PaymentView>
    decreases payments.len(),
{
    if payments.len() == 0 {
        Seq::empty()
    } else {
        let sorted = by_time(payments.drop_last());
        sorted.insert(place(sorted, payments.last()), payments.last())
    }
}

pub open spec fn in_time_order(payments: Seq<PaymentView>) -> bool {
    forall|i: int, j: int|
        0 <= i < j < payments.len() ==> (#[trigger] payments[i]).created_at <= (
        #[trigger] payments[j]).created_at
}

proof fn place_properties(sorted: Seq<PaymentView>, p: PaymentView)
    requires
        in_time_order(sorted),
    ensures
        0 <= place(sorted, p) <= sorted.len(),
        forall|i: int| 0 <= i < place(sorted, p) ==> (#[trigger] sorted[i]).created_at <= p.created_at,
        forall|i: int|
            place(sorted, p) <= i < sorted.len() ==> (#[trigger] sorted[i]).created_at
                > p.created_at,
    decreases sorted.len(),
{
    if sorted.len() > 0 {
        if sorted.last().created_at <= p.created_at {
            assert forall|i: int| 0 <= i < sorted.len() implies (#[trigger] sorted[i]).created_at
                <= p.created_at by {
                if i < sorted.len() - 1 {
                    assert(sorted[i].created_at <= sorted[sorted.len() - 1].created_at);
                }
            }
        } else {
            let front = sorted.drop_last();
            assert(in_time_order(front)) by {
                assert forall|i: int, j: int| 0 <= i < j < front.len() implies (
                #[trigger] front[i]).created_at <= (#[trigger] front[j]).created_at by {
                    assert(front[i] == sorted[i]);
                    assert(front[j] == sorted[j]);
                }
            }
            place_properties(front, p);
            assert forall|i: int| 0 <= i < place(sorted, p) implies (
            #[trigger] sorted[i]).created_at <= p.created_at by {
                assert(sorted[i] == front[i]);
            }
            assert forall|i: int| place(sorted, p) <= i < sorted.len() implies (
            #[trigger] sorted[i]).created_at > p.created_at by {
                if i < sorted.len() - 1 {
                    assert(sorted[i] == front[i]);
                }
            }
        }
    }
}

/// `by_time` puts the payments in the order of their time and neither
/// drops nor adds one.
pub proof fn by_time_sorts(payments: Seq<PaymentView>)
    ensures
        in_time_order(by_time(payments)),
        by_time(payments).len() == payments.len(),
        by_time(payments).to_multiset() == payments.to_multiset(),
    decreases payments.len(),
{
    broadcast use vstd::seq_lib::group_to_multiset_ensures;

    if payments.len() == 0 {
        assert(by_time(payments).to_multiset() =~= payments.to_multiset());
    } else {
        let front = payments.drop_last();
        let p = payments.last();
        by_time_sorts(front);
        let sorted = by_time(front);
        place_properties(sorted, p);
        let k = place(sorted, p);
        let out = sorted.insert(k, p);
        assert forall|i: int, j: int| 0 <= i < j < out.len() implies (#[trigger] out[i]).created_at
            <= (#[trigger] out[j]).created_at by {
            if i < k && j > k {
                assert(out[i] == sorted[i]);
                assert(out[j] == sorted[j - 1]);
            } else if i < k && j < k {
                assert(out[i] == sorted[i]);
                assert(out[j] == sorted[j]);
            } else if i > k {
                assert(out[i] == sorted[i - 1]);
                assert(out[j] == sorted[j - 1]);
            } else if i == k {
                assert(out[j] == sorted[j - 1]);
            } else {
                assert(out[i] == sorted[i]);
            }
        }
        assert(out.remove(k) =~= sorted);
        vstd::seq_lib::to_multiset_remove(out, k);
        assert(out.to_multiset().count(p) > 0) by {
            assert(out[k] == p);
            assert(out.contains(p));
        }
        assert(out.to_multiset() =~= sorted.to_multiset().insert(p));
        assert(payments =~= front.push(p));
        assert(payments.to_multiset() =~= front.to_multiset().insert(p));
    }
}

/// Puts payments in the order of their time.
pub fn sort_by_time(found: Vec<Payment>) -> (r: Vec<Payment>)
    ensures
        payment_views(r@) == by_time(payment_views(found@)),
{
    let mut out: Vec<Payment> = Vec::new();
    let mut k: usize = 0;
    let ghost all = payment_views(found@);
    assert(payment_views(out@) =~= by_time(all.take(0)));
    while k < found.len()
        invariant
            k <= found.len(),
            all == payment_views(found@),
            payment_views(out@) == by_time(all.take(k as int)),
            out@.len() <= k,
        decreases found.len() - k,
    {
        let ghost sorted = payment_views(out@);
        let p = found[k].copy();
        let mut j: usize = out.len();
        assert(sorted.take(j as int) =~= sorted);
        while j > 0 && out[j - 1].created_at > p.created_at
            invariant
                j <= out@.len(),
                sorted == payment_views(out@),
                place(sorted, p@) == place(sorted.take(j as int), p@),
            decreases j,
        {
            proof {
                let front = sorted.take(j as int);
                assert(front.last() == sorted[j - 1]);
                assert(front.drop_last() =~= sorted.take(j - 1));
            }
            j = j - 1;
        }
        proof {
            let front = sorted.take(j as int);
            if j > 0 {
                assert(front.last() == sorted[j - 1]);
            }
            assert(place(front, p@) == j);
            assert(all.take(k + 1).drop_last() =~= all.take(k as int));
            assert(all.take(k + 1).last() == p@);
        }
        out.insert(j, p);
        assert(payment_views(out@) =~= sorted.insert(j as int, all[k as int]));
        k = k + 1;
    }
    assert(all.take(found.len() as int) =~= all);
    out
}

/// Stores a payment as received, once. A transaction id that is known
/// already is refused with `PaymentAlreadyExists`, and nothing changes.
pub fn idempotent_insert(transfer: NewPayment, conn: &mut OrderFlow, now: i64) -> (r: Result<
    Payment,
    PaymentGatewayError,
>)
    requires
        old(conn)@.sound(),
    ensures
        final(conn)@ == new_payment_step(old(conn)@, transfer@, now).ledger,
        final(conn)@.sound(),
        match r {
            Ok(p) => {
                &&& old(conn)@.payment_position(transfer@.txid) is None
                &&& new_payment_step(old(conn)@, transfer@, now).result is Ok
                &&& final(conn)@.payment_position(transfer@.txid) matches Some(i)
                &&& p@ == final(conn)@.payments[i]
            },
            Err(e) => if old(conn)@.payment_position(transfer@.txid) is Some {
                e@ == PaymentGatewayErrorView::PaymentAlreadyExists(transfer@.txid)
            } else {
                new_payment_step(old(conn)@, transfer@, now).result matches Err(f) && e@
                    == PaymentGatewayErrorView::refusal(f, transfer@.txid)
            },
        },
{
    let txid = transfer.txid.clone();
    proof {
        new_payment_keeps_sound(conn@, transfer@, now);
    }
    if conn.store().has_payment(txid.as_str()) {
        return Err(PaymentGatewayError::PaymentAlreadyExists(txid));
    }
    match conn.process_new_payment(transfer, now) {
        Err(e) => Err(PaymentGatewayError::from_refusal(e, txid.as_str())),
        Ok(_) => match conn.payment(txid.as_str()) {
            Some(p) => Ok(p),
            None => Err(PaymentGatewayError::PaymentNotFound(txid)),
        },
    }
}

/// What issuing a credit note at the time `timestamp` did, and what it
/// gave: the payment as it was stored; `PaymentAlreadyExists` where one was
/// issued already to the same customer, of the same amount and at the same
/// time; or the engine's refusal.
pub open spec fn credit_note_gave(
    before: Ledger,
    after: Ledger,
    note: CreditNoteView,
    timestamp: i64,
    r: Result<Payment, PaymentGatewayError>,
) -> bool {
    let txid = credit_note_txid(note, timestamp);
    &&& after == credit_note_step(before, note, timestamp).ledger
    &&& match r {
        Ok(p) => {
            &&& before.payment_position(txid) is None
            &&& credit_note_step(before, note, timestamp).result is Ok
            &&& after.payment_position(txid) matches Some(i)
            &&& p@ == after.payments[i]
        },
        Err(e) => if before.payment_position(txid) is Some {
            e@ == PaymentGatewayErrorView::PaymentAlreadyExists(txid)
        } else {
            credit_note_step(before, note, timestamp).result matches Err(f) && e@
                == PaymentGatewayErrorView::refusal(f, txid)
        },
    }
}

/// Issues a credit note at the time `timestamp`: a manual, confirmed
/// payment under a transaction id made of the customer, the amount and the
/// time. One that was issued already is refused with
/// `PaymentAlreadyExists`, and nothing changes.
pub fn credit_note_at(note: &CreditNote, timestamp: i64, conn: &mut OrderFlow) -> (r: Result<
    Payment,
    PaymentGatewayError,
>)
    requires
        old(conn)@.sound(),
    ensures
        credit_note_gave(old(conn)@, final(conn)@, note@, timestamp, r),
        final(conn)@.sound(),
{
    let txid = make_credit_note_txid(note, timestamp);
    proof {
        credit_note_keeps_sound(conn@, note@, timestamp);
    }
    if conn.store().has_payment(txid.as_str()) {
        return Err(PaymentGatewayError::PaymentAlreadyExists(txid));
    }
    match conn.issue_credit_note(note, timestamp) {
        Err(e) => Err(PaymentGatewayError::from_refusal(e, txid.as_str())),
        Ok(_) => match conn.payment(txid.as_str()) {
            Some(p) => Ok(p),
            None => Err(PaymentGatewayError::PaymentNotFound(txid)),
        },
    }
}

/// Reads the clock: calls `chrono::Utc::now` and then `timestamp` on what
/// it gives. Nothing is claimed of the result. `now` panics where the
/// system's clock stands before 1970.
#[verifier::external_body]
fn current_timestamp() -> (r: i64) {
    chrono::Utc::now().timestamp()
}

/// Issues a credit note at the present time.
pub fn credit_note(note: &CreditNote, conn: &mut OrderFlow) -> (r: Result<
    Payment,
    PaymentGatewayError,
>)
    requires
        old(conn)@.sound(),
    ensures
        final(conn)@.sound(),
        exists|timestamp: i64| #[trigger]
            credit_note_gave(old(conn)@, final(conn)@, note@, timestamp, r),
{
    let timestamp = current_timestamp();
    credit_note_at(note, timestamp, conn)
}

/// Moves a payment to a status and gives the payment as it stands then. A
/// transaction id that is unknown is refused with
/// `PaymentStatusUpdateError`.
pub fn update_status(txid: &str, status: TransferStatus, conn: &mut OrderFlow, now: i64) -> (r:
    Result<Payment, PaymentGatewayError>)
    requires
        old(conn)@.sound(),
    ensures
        final(conn)@ == payment_status_step(old(conn)@, txid@, status, now),
        final(conn)@.sound(),
        match r {
            Ok(p) => {
                &&& old(conn)@.payment_update(txid@, status) is Ok
                &&& final(conn)@.payment_position(txid@) matches Some(i)
                &&& p@ == final(conn)@.payments[i]
            },
            Err(e) => match old(conn)@.payment_update(txid@, status) {
                Err(OrderFlowError::PaymentNotFound) => e@
                    == PaymentGatewayErrorView::PaymentStatusUpdateError(
                    "Payment for "@ + txid@ + " does not exist"@,
                ),
                Err(f) => e@ == PaymentGatewayErrorView::refusal(f, txid@),
                Ok(_) => false,
            },
        },
{
    let ghost s = conn@;
    match conn.set_payment_status(txid, status, now) {
        Err(OrderFlowError::PaymentNotFound) => Err(
            PaymentGatewayError::PaymentStatusUpdateError(
                String::from_str("Payment for ").concat(txid).concat(" does not exist"),
            ),
        ),
        Err(e) => Err(PaymentGatewayError::from_refusal(e, txid)),
        Ok(_) => {
            proof {
                let i = s.payment_position(txid@).unwrap();
                assert(s.holds_payment(i, txid@));
                crate::steps::payment_status_keeps_ids(s, txid@, status, now);
                crate::steps::payment_position_depends_on_ids(s, conn@, txid@);
            }
            match conn.payment(txid) {
                Some(p) => Ok(p),
                None => Err(PaymentGatewayError::PaymentNotFound(String::from_str(txid))),
            }
        },
    }
}

/// The payment with this transaction id, if there is one.
pub fn fetch_payment(txid: &str, conn: &OrderFlow) -> (r: Result<
    Option<Payment>,
    PaymentGatewayError,
>)
    requires
        conn@.sound(),
    ensures
        r matches Ok(found) && match conn@.payment_position(txid@) {
            Some(i) => found matches Some(p) && p@ == conn@.payments[i],
            None => found is None,
        },
{
    Ok(conn.payment(txid))
}

/// The payments that a wallet has sent, in the order of the table.
pub fn fetch_payments_for_address(address: &str, conn: &OrderFlow) -> (r: Result<
    Vec<Payment>,
    PaymentGatewayError,
>)
    ensures
        r matches Ok(found) && payment_views(found@) == sent_by(conn@.payments, address@),
{
    let store = conn.store();
    let n = store.payment_count();
    let mut out: Vec<Payment> = Vec::new();
    let mut k: usize = 0;
    assert(payment_views(out@) =~= sent_by(conn@.payments.take(0), address@));
    while k < n
        invariant
            k <= n,
            n == conn@.payments.len(),
            store@ == conn@,
            payment_views(out@) == sent_by(conn@.payments.take(k as int), address@),
        decreases n - k,
    {
        let ghost shown = payment_views(out@);
        let p = store.payment_at(k);
        proof {
            let all = conn@.payments;
            assert(all.take(k + 1).drop_last() =~= all.take(k as int));
            assert(all.take(k + 1).last() == all[k as int]);
        }
        if same_text(p.sender.as_str(), address) {
            out.push(p);
            assert(payment_views(out@) =~= shown.push(conn@.payments[k as int]));
        }
        k = k + 1;
    }
    assert(conn@.payments.take(n as int) =~= conn@.payments);
    Ok(out)
}

/// The payments that a wallet has sent and that wait to be confirmed, the
/// oldest first.
pub fn pending_payments(address: &str, conn: &OrderFlow) -> (r: Result<
    Vec<Payment>,
    PaymentGatewayError,
>)
    ensures
        r matches Ok(found) && payment_views(found@) == by_time(
            waiting_from(conn@.payments, address@),
        ),
{
    let store = conn.store();
    let n = store.payment_count();
    let mut out: Vec<Payment> = Vec::new();
    let mut k: usize = 0;
    assert(payment_views(out@) =~= waiting_from(conn@.payments.take(0), address@));
    while k < n
        invariant
            k <= n,
            n == conn@.payments.len(),
            store@ == conn@,
            payment_views(out@) == waiting_from(conn@.payments.take(k as int), address@),
        decreases n - k,
    {
        let ghost shown = payment_views(out@);
        let p = store.payment_at(k);
        proof {
            let all = conn@.payments;
            assert(all.take(k + 1).drop_last() =~= all.take(k as int));
            assert(all.take(k + 1).last() == all[k as int]);
        }
        if same_text(p.sender.as_str(), address) && p.status == TransferStatus::Received {
            out.push(p);
            assert(payment_views(out@) =~= shown.push(conn@.payments[k as int]));
        }
        k = k + 1;
    }
    assert(conn@.payments.take(n as int) =~= conn@.payments);
    Ok(sort_by_time(out))
}

/// The payments that name an order, in the order of the table.
pub fn fetch_payments_for_order(order_id: &str, conn: &OrderFlow) -> (r: Result<
    Vec<Payment>,
    PaymentGatewayError,
>)
    ensures
        r matches Ok(found) && payment_views(found@) == naming_order(conn@.payments, order_id@),
{
    let store = conn.store();
    let n = store.payment_count();
    let mut out: Vec<Payment> = Vec::new();
    let mut k: usize = 0;
    assert(payment_views(out@) =~= naming_order(conn@.payments.take(0), order_id@));
    while k < n
        invariant
            k <= n,
            n == conn@.payments.len(),
            store@ == conn@,
            payment_views(out@) == naming_order(conn@.payments.take(k as int), order_id@),
        decreases n - k,
    {
        let ghost shown = payment_views(out@);
        let p = store.payment_at(k);
        proof {
            let all = conn@.payments;
            assert(all.take(k + 1).drop_last() =~= all.take(k as int));
            assert(all.take(k + 1).last() == all[k as int]);
        }
        let names = match &p.order_id {
            Some(id) => same_text(id.as_str(), order_id),
            None => false,
        };
        if names {
            out.push(p);
            assert(payment_views(out@) =~= shown.push(conn@.payments[k as int]));
        }
        k = k + 1;
    }
    assert(conn@.payments.take(n as int) =~= conn@.payments);
    Ok(out)
}

} // verus!
