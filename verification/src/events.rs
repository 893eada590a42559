//! What the engine announces once a step has taken effect.

use vstd::prelude::*;
use crate::records::OrderView;

verus! {

/// An announcement. Each carries the id of the order or the transaction id
/// of the payment that it is about.
#[derive(Debug)]
pub enum Event {
    OrderReceived(String),
    OrderPaid(String),
    OrderCancelled(String),
    PaymentReceived(String),
    PaymentConfirmed(String),
}

pub enum EventView {
    OrderReceived(Seq<char>),
    OrderPaid(Seq<char>),
    OrderCancelled(Seq<char>),
    PaymentReceived(Seq<char>),
    PaymentConfirmed(Seq<char>),
}

impl View for Event {
    type V = EventView;

    open spec fn view(&self) -> EventView {
        match self {
            Event::OrderReceived(s) => EventView::OrderReceived(s@),
            Event::OrderPaid(s) => EventView::OrderPaid(s@),
            Event::OrderCancelled(s) => EventView::OrderCancelled(s@),
            Event::PaymentReceived(s) => EventView::PaymentReceived(s@),
            Event::PaymentConfirmed(s) => EventView::PaymentConfirmed(s@),
        }
    }
}

impl Event {
    /// A copy of the announcement.
    pub fn copy(&self) -> (r: Event)
        ensures
            r@ == self@,
    {
        match self {
            Event::OrderReceived(s) => Event::OrderReceived(s.clone()),
            Event::OrderPaid(s) => Event::OrderPaid(s.clone()),
            Event::OrderCancelled(s) => Event::OrderCancelled(s.clone()),
            Event::PaymentReceived(s) => Event::PaymentReceived(s.clone()),
            Event::PaymentConfirmed(s) => Event::PaymentConfirmed(s.clone()),
        }
    }
}

pub open spec fn event_views(events: Seq<Event>) -> Seq<EventView> {
    Seq::new(events.len(), |i: int| events[i]@)
}

/// One `OrderPaid` for each row, in their order.
pub open spec fn paid_events(rows: Seq<OrderView>) -> Seq<EventView> {
    Seq::new(rows.len(), |i: int| EventView::OrderPaid(rows[i].order_id))
}

/// What the publisher does with an announcement that a subscriber had no
/// room for.
#[derive(Clone, Copy, Debug, PartialEq, Eq, Structural)]
pub enum Backpressure {
    /// Wait and offer it again.
    Wait,
    /// Drop it for this subscriber.
    Drop,
}

/// The publisher waits for a subscriber as long as it has not waited for
/// the whole timeout, and then drops the announcement.
pub fn on_full_queue(waited_ms: u64, timeout_ms: u64) -> (r: Backpressure)
    ensures
        r == (if waited_ms < timeout_ms {
            Backpressure::Wait
        } else {
            Backpressure::Drop
        }),
{
    if waited_ms < timeout_ms {
        Backpressure::Wait
    } else {
        Backpressure::Drop
    }
}

/// The bus: one bounded queue for each subscriber. A subscriber sees the
/// announcements that its queue took in the order in which they were
/// published.
pub struct EventBus {
    queues: Vec<Vec<Event>>,
    capacity: usize,
}

/// What the queues hold.
pub open spec fn queue_views(queues: Seq<Vec<Event>>) -> Seq<Seq<EventView>> {
    Seq::new(queues.len(), |i: int| event_views(queues[i]@))
}

/// The queues after an announcement has been published: it stands at the
/// end of every queue that had room.
pub open spec fn published(queues: Seq<Seq<EventView>>, capacity: nat, e: EventView) -> Seq<
    Seq<EventView>,
> {
    Seq::new(
        queues.len(),
        |i: int|
            if queues[i].len() < capacity {
                queues[i].push(e)
            } else {
                queues[i]
            },
    )
}

/// The subscribers that had no room, in rising order, among the first `n`.
pub open spec fn full_among(queues: Seq<Seq<EventView>>, capacity: nat, n: int) -> Seq<usize>
    decreases n,
{
    if n <= 0 {
        Seq::empty()
    } else if queues[n - 1].len() >= capacity {
        full_among(queues, capacity, n - 1).push((n - 1) as usize)
    } else {
        full_among(queues, capacity, n - 1)
    }
}

impl EventBus {
    /// What each subscriber's queue holds, the oldest announcement first.
    pub closed spec fn queues(&self) -> Seq<Seq<EventView>> {
        queue_views(self.queues@)
    }

    /// How many announcements a queue takes.
    pub closed spec fn capacity(&self) -> nat {
        self.capacity as nat
    }

    /// No queue holds more than it takes.
    pub open spec fn well_formed(&self) -> bool {
        forall|i: int| 0 <= i < self.queues().len() ==> (#[trigger] self.queues()[i]).len()
            <= self.capacity()
    }

    /// A bus without subscribers.
    pub fn new(capacity: usize) -> (r: EventBus)
        ensures
            r.queues() == Seq::<Seq<EventView>>::empty(),
            r.capacity() == capacity,
            r.well_formed(),
    {
        let r = EventBus { queues: Vec::new(), capacity };
        assert(r.queues() =~= Seq::empty());
        r
    }

    /// Adds a subscriber with an empty queue and gives its number.
    pub fn subscribe(&mut self) -> (r: usize)
        requires
            old(self).well_formed(),
        ensures
            r == old(self).queues().len(),
            final(self).queues() == old(self).queues().push(Seq::empty()),
            final(self).capacity() == old(self).capacity(),
            final(self).well_formed(),
    {
        let r = self.queues.len();
        let ghost before = self.queues();
        let queue: Vec<Event> = Vec::new();
        assert(event_views(queue@) =~= Seq::empty());
        self.queues.push(queue);
        assert(self.queues() =~= before.push(Seq::empty()));
        r
    }

    /// Offers an announcement to one subscriber. It is taken where the
    /// subscriber exists and its queue has room.
    pub fn offer(&mut self, subscriber: usize, event: &Event) -> (r: bool)
        requires
            old(self).well_formed(),
        ensures
            r == (subscriber < old(self).queues().len() && old(self).queues()[subscriber as int].len()
                < old(self).capacity()),
            final(self).queues() == (if r {
                old(self).queues().update(
                    subscriber as int,
                    old(self).queues()[subscriber as int].push(event@),
                )
            } else {
                old(self).queues()
            }),
            final(self).capacity() == old(self).capacity(),
            final(self).well_formed(),
    {
        if subscriber >= self.queues.len() {
            return false;
        }
        if self.queues[subscriber].len() >= self.capacity {
            return false;
        }
        let ghost before = self.queues();
        self.queues[subscriber].push(event.copy());
        proof {
            assert(event_views(self.queues@[subscriber as int]@) =~= before[subscriber as int].push(
                event@,
            ));
            assert(self.queues() =~= before.update(
                subscriber as int,
                before[subscriber as int].push(event@),
            ));
        }
        true
    }

    /// Publishes an announcement: every subscriber with room takes it. It
    /// gives the subscribers that had none, for the publisher to wait for.
    pub fn publish(&mut self, event: &Event) -> (r: Vec<usize>)
        requires
            old(self).well_formed(),
        ensures
            final(self).queues() == published(old(self).queues(), old(self).capacity(), event@),
            r@ == full_among(
                old(self).queues(),
                old(self).capacity(),
                old(self).queues().len() as int,
            ),
            final(self).capacity() == old(self).capacity(),
            final(self).well_formed(),
    {
        let ghost before = self.queues();
        let ghost capacity = self.capacity();
        let n = self.queues.len();
        let mut full: Vec<usize> = Vec::new();
        let mut k: usize = 0;
        while k < n
            invariant
                k <= n,
                n == before.len(),
                self.queues().len() == n,
                self.capacity() == capacity,
                full@ == full_among(before, capacity, k as int),
                forall|i: int|
                    0 <= i < k ==> (#[trigger] self.queues()[i]) == published(
                        before,
                        capacity,
                        event@,
                    )[i],
                forall|i: int| k <= i < n ==> (#[trigger] self.queues()[i]) == before[i],
                forall|i: int| 0 <= i < n ==> (#[trigger] before[i]).len() <= capacity,
            decreases n - k,
        {
            if self.offer(k, event) {
            } else {
                full.push(k);
            }
            assert(self.queues()[k as int] == published(before, capacity, event@)[k as int]);
            k = k + 1;
        }
        assert(self.queues() =~= published(before, capacity, event@));
        full
    }

    /// Takes the oldest announcement of a subscriber's queue.
    pub fn take(&mut self, subscriber: usize) -> (r: Option<Event>)
        requires
            old(self).well_formed(),
        ensures
            match r {
                Some(e) => subscriber < old(self).queues().len() && old(
                    self,
                ).queues()[subscriber as int].len() > 0 && e@ == old(
                    self,
                ).queues()[subscriber as int][0] && final(self).queues() == old(self).queues().update(
                    subscriber as int,
                    old(self).queues()[subscriber as int].drop_first(),
                ),
                None => (subscriber >= old(self).queues().len() || old(
                    self,
                ).queues()[subscriber as int].len() == 0) && final(self).queues() == old(
                    self,
                ).queues(),
            },
            final(self).capacity() == old(self).capacity(),
            final(self).well_formed(),
    {
        if subscriber >= self.queues.len() {
            return None;
        }
        if self.queues[subscriber].len() == 0 {
            return None;
        }
        let ghost before = self.queues();
        let e = self.queues[subscriber].remove(0);
        proof {
            assert(event_views(self.queues@[subscriber as int]@) =~= before[subscriber as int].drop_first());
            assert(self.queues() =~= before.update(
                subscriber as int,
                before[subscriber as int].drop_first(),
            ));
        }
        Some(e)
    }

    /// How many announcements wait for a subscriber.
    pub fn waiting(&self, subscriber: usize) -> (r: usize)
        ensures
            r == (if subscriber < self.queues().len() {
                self.queues()[subscriber as int].len()
            } else {
                0
            }),
    {
        if subscriber < self.queues.len() {
            self.queues[subscriber].len()
        } else {
            0
        }
    }
}

/// A subscriber sees what its queue took in the order of publishing: an
/// announcement that is published while another waits is taken after it.
pub proof fn subscribers_see_the_order_of_publishing(
    queues: Seq<Seq<EventView>>,
    capacity: nat,
    e: EventView,
    subscriber: int,
)
    requires
        0 <= subscriber < queues.len(),
    ensures
        published(queues, capacity, e)[subscriber] == queues[subscriber] || (published(
            queues,
            capacity,
            e,
        )[subscriber].drop_last() == queues[subscriber] && published(
            queues,
            capacity,
            e,
        )[subscriber].last() == e),
{
    if queues[subscriber].len() < capacity {
        assert(queues[subscriber].push(e).drop_last() =~= queues[subscriber]);
    }
}

} // verus!
