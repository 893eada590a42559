//! The log of what the engine was asked to do, and the state that a log
//! leads to from an empty store.

use vstd::prelude::*;
use crate::events::Event;
use crate::flow::OrderFlow;
use crate::flow::outcome;
use crate::ledger::Ledger;
use crate::ledger::empty_is_sound;
use crate::outcome::OrderFlowError;
use crate::records::CreditNote;
use crate::records::CreditNoteView;
use crate::records::NewOrder;
use crate::records::NewOrderView;
use crate::records::NewPayment;
use crate::records::NewPaymentView;
use crate::records::WalletClaim;
use crate::records::WalletClaimView;
use crate::steps::Step;
use crate::steps::new_order_step;
use crate::steps::new_payment_step;
use crate::steps::confirm_payment_step;
use crate::steps::cancel_payment_step;
use crate::steps::claim_order_step;
use crate::steps::cancel_order_step;
use crate::steps::reset_order_step;
use crate::steps::fulfil_order_step;
use crate::steps::credit_note_step;
use crate::steps::expire_step;
use crate::steps::new_order_keeps_sound;
use crate::steps::new_payment_keeps_sound;
use crate::steps::confirm_payment_keeps_sound;
use crate::steps::cancel_payment_keeps_sound;
use crate::steps::claim_order_keeps_sound;
use crate::steps::cancel_order_keeps_sound;
use crate::steps::reset_order_keeps_sound;
use crate::steps::fulfil_order_keeps_sound;
use crate::steps::credit_note_keeps_sound;
use crate::steps::expire_rows_properties;

verus! {

/// What the engine can be asked to do.
#[derive(Debug)]
pub enum Command {
    NewOrder(NewOrder),
    NewPayment(NewPayment),
    ConfirmPayment(String),
    CancelPayment(String),
    ClaimOrder(String, WalletClaim),
    CancelOrder(String),
    ResetOrder(String),
    FulfilOrder(String),
    IssueCredit(CreditNote),
    /// A pass of the expiry worker with the timeouts for unclaimed and for
    /// claimed orders, in seconds.
    Expire(u64, u64),
}

pub enum CommandView {
    NewOrder(NewOrderView),
    NewPayment(NewPaymentView),
    ConfirmPayment(Seq<char>),
    CancelPayment(Seq<char>),
    ClaimOrder(Seq<char>, WalletClaimView),
    CancelOrder(Seq<char>),
    ResetOrder(Seq<char>),
    FulfilOrder(Seq<char>),
    IssueCredit(CreditNoteView),
    Expire(u64, u64),
}

impl View for Command {
    type V = CommandView;

    open spec fn view(&self) -> CommandView {
        match self {
            Command::NewOrder(o) => CommandView::NewOrder(o@),
            Command::NewPayment(p) => CommandView::NewPayment(p@),
            Command::ConfirmPayment(t) => CommandView::ConfirmPayment(t@),
            Command::CancelPayment(t) => CommandView::CancelPayment(t@),
            Command::ClaimOrder(id, c) => CommandView::ClaimOrder(id@, c@),
            Command::CancelOrder(id) => CommandView::CancelOrder(id@),
            Command::ResetOrder(id) => CommandView::ResetOrder(id@),
            Command::FulfilOrder(id) => CommandView::FulfilOrder(id@),
            Command::IssueCredit(n) => CommandView::IssueCredit(n@),
            Command::Expire(a, b) => CommandView::Expire(*a, *b),
        }
    }
}

/// One line of the log: a command and the time at which it came.
#[derive(Debug)]
pub struct Entry {
    pub at: i64,
    pub command: Command,
}

pub struct EntryView {
    pub at: i64,
    pub command: CommandView,
}

impl View for Entry {
    type V = EntryView;

    open spec fn view(&self) -> EntryView {
        EntryView { at: self.at, command: self.command@ }
    }
}

pub open spec fn entry_views(log: Seq<Entry>) -> Seq<EntryView> {
    Seq::new(log.len(), |i: int| log[i]@)
}

/// What a line of the log does to a state.
pub open spec fn apply(s: Ledger, e: EntryView) -> Step {
    match e.command {
        CommandView::NewOrder(o) => new_order_step(s, o, e.at),
        CommandView::NewPayment(p) => new_payment_step(s, p, e.at),
        CommandView::ConfirmPayment(t) => confirm_payment_step(s, t, e.at),
        CommandView::CancelPayment(t) => cancel_payment_step(s, t),
        CommandView::ClaimOrder(id, c) => claim_order_step(s, id, c, e.at),
        CommandView::CancelOrder(id) => cancel_order_step(s, id, e.at),
        CommandView::ResetOrder(id) => reset_order_step(s, id, e.at),
        CommandView::FulfilOrder(id) => fulfil_order_step(s, id),
        CommandView::IssueCredit(n) => credit_note_step(s, n, e.at),
        CommandView::Expire(a, b) => expire_step(s, e.at, a, b),
    }
}

/// The state that a log leads to from an empty store.
pub open spec fn replayed(log: Seq<EntryView>) -> Ledger
    decreases log.len(),
{
    if log.len() == 0 {
        Ledger::empty()
    } else {
        apply(replayed(log.drop_last()), log.last()).ledger
    }
}

/// Every command keeps a sound state sound, and a refused command leaves
/// the state as it was.
pub proof fn apply_keeps_sound(s: Ledger, e: EntryView)
    requires
        s.sound(),
    ensures
        apply(s, e).ledger.sound(),
        apply(s, e).result is Err ==> apply(s, e).ledger == s,
{
    match e.command {
        CommandView::NewOrder(o) => new_order_keeps_sound(s, o, e.at),
        CommandView::NewPayment(p) => new_payment_keeps_sound(s, p, e.at),
        CommandView::ConfirmPayment(t) => confirm_payment_keeps_sound(s, t, e.at),
        CommandView::CancelPayment(t) => cancel_payment_keeps_sound(s, t),
        CommandView::ClaimOrder(id, c) => claim_order_keeps_sound(s, id, c, e.at),
        CommandView::CancelOrder(id) => cancel_order_keeps_sound(s, id, e.at),
        CommandView::ResetOrder(id) => reset_order_keeps_sound(s, id, e.at),
        CommandView::FulfilOrder(id) => fulfil_order_keeps_sound(s, id),
        CommandView::IssueCredit(n) => credit_note_keeps_sound(s, n, e.at),
        CommandView::Expire(a, b) => expire_rows_properties(s, s.orders.len(), e.at, a, b),
    }
}

/// Every state that a log leads to is sound.
pub proof fn replayed_is_sound(log: Seq<EntryView>)
    ensures
        replayed(log).sound(),
    decreases log.len(),
{
    if log.len() == 0 {
        empty_is_sound();
    } else {
        replayed_is_sound(log.drop_last());
        apply_keeps_sound(replayed(log.drop_last()), log.last());
    }
}

/// Replaying a log with one more line is replaying the log and then doing
/// what the line says.
pub proof fn replayed_extends(log: Seq<EntryView>, e: EntryView)
    ensures
        replayed(log.push(e)) == apply(replayed(log), e).ledger,
{
    assert(log.push(e).drop_last() =~= log);
}

impl OrderFlow {
    /// Does what a line of the log says.
    pub fn execute(&mut self, entry: &Entry) -> (r: Result<Vec<Event>, OrderFlowError>)
        requires
            old(self)@.sound(),
        ensures
            final(self)@ == apply(old(self)@, entry@).ledger,
            outcome(r) == apply(old(self)@, entry@).result,
            final(self)@.sound(),
    {
        match &entry.command {
            Command::NewOrder(o) => self.process_new_order(o.copy(), entry.at),
            Command::NewPayment(p) => self.process_new_payment(p.copy(), entry.at),
            Command::ConfirmPayment(t) => self.confirm_payment(t.as_str(), entry.at),
            Command::CancelPayment(t) => self.cancel_payment(t.as_str()),
            Command::ClaimOrder(id, c) => self.claim_order(id.as_str(), c, entry.at),
            Command::CancelOrder(id) => self.cancel_order(id.as_str(), entry.at),
            Command::ResetOrder(id) => self.reset_order(id.as_str(), entry.at),
            Command::FulfilOrder(id) => self.fulfil_order(id.as_str()),
            Command::IssueCredit(n) => self.issue_credit_note(n, entry.at),
            Command::Expire(a, b) => self.expire_orders(entry.at, *a, *b),
        }
    }

    /// Builds the engine that a log leads to from an empty store. The same
    /// log always leads to the same state, whatever each line announced or
    /// was refused for.
    pub fn replay(log: &Vec<Entry>) -> (r: OrderFlow)
        ensures
            r@ == replayed(entry_views(log@)),
            r@.sound(),
    {
        let mut flow = OrderFlow::new();
        let mut k: usize = 0;
        assert(entry_views(log@).take(0) =~= Seq::empty());
        while k < log.len()
            invariant
                k <= log.len(),
                flow@.sound(),
                flow@ == replayed(entry_views(log@).take(k as int)),
            decreases log.len() - k,
        {
            let _ = flow.execute(&log[k]);
            proof {
                let all = entry_views(log@);
                assert(all.take(k + 1) =~= all.take(k as int).push(all[k as int]));
                replayed_extends(all.take(k as int), all[k as int]);
            }
            k = k + 1;
        }
        assert(entry_views(log@).take(log.len() as int) =~= entry_views(log@));
        flow
    }
}

} // verus!
